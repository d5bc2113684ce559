//! Accounts, payees and categories built from attribute records.
use crate::ledger::{has_key, Account, Category, Currency, HomeBankDb, Payee};
use crate::numeric::{amount_of, parse_amount, parse_u32, parse_usize, text_eq, u32_of, usize_of};
use crate::transaction::{
    last_index, last_value, optional_id, record_error, Attribute, Transaction, TransactionError,
};
use vstd::prelude::*;

verus! {

/// Why an attribute record does not make an account, payee or category.
#[derive(Clone, Copy, Debug, PartialEq, Eq, Structural)]
pub enum RecordError {
    /// No readable `key` attribute.
    MissingKey,
    /// No `name` attribute, or an empty one where a name is required.
    MissingName,
}

/// The id in the `key` attribute.
pub open spec fn key_of(attrs: Seq<Attribute>) -> Option<usize> {
    optional_id(last_value(attrs, "key"@))
}

/// The text of the last `name` attribute, when it is present and not empty.
pub open spec fn name_of(attrs: Seq<Attribute>) -> Option<Seq<char>> {
    match last_value(attrs, "name"@) {
        Some(n) => if n.len() > 0 { Some(n) } else { None },
        None => None,
    }
}

fn read_key(attrs: &Vec<Attribute>) -> (r: Option<usize>)
    ensures
        r == key_of(attrs@),
{
    match last_index(attrs, "key") {
        Some(i) => parse_usize(attrs[i].value.as_str()),
        None => None,
    }
}

fn read_name(attrs: &Vec<Attribute>) -> (r: Option<String>)
    ensures
        r is Some <==> name_of(attrs@) is Some,
        r is Some ==> r->0@ == name_of(attrs@)->0,
{
    match last_index(attrs, "name") {
        Some(i) => if attrs[i].value.unicode_len() > 0 { Some(attrs[i].value.clone()) } else { None },
        None => None,
    }
}

/// The name of the attribute that holds budget entry `i`: `b0` to `b12`.
pub open spec fn budget_key(i: int) -> Seq<char> {
    if i < 10 {
        seq!['b', ('0' as u32 + i) as char]
    } else {
        seq!['b', '1', ('0' as u32 + i - 10) as char]
    }
}

fn budget_key_text(i: usize) -> (r: &'static str)
    requires
        i <= 12,
    ensures
        r@ == budget_key(i as int),
{
    proof {
        reveal_strlit("b0");
        reveal_strlit("b1");
        reveal_strlit("b2");
        reveal_strlit("b3");
        reveal_strlit("b4");
        reveal_strlit("b5");
        reveal_strlit("b6");
        reveal_strlit("b7");
        reveal_strlit("b8");
        reveal_strlit("b9");
        reveal_strlit("b10");
        reveal_strlit("b11");
        reveal_strlit("b12");
    }
    let r = match i {
        0 => "b0",
        1 => "b1",
        2 => "b2",
        3 => "b3",
        4 => "b4",
        5 => "b5",
        6 => "b6",
        7 => "b7",
        8 => "b8",
        9 => "b9",
        10 => "b10",
        11 => "b11",
        _ => "b12",
    };
    assert(r@ =~= budget_key(i as int));
    r
}

/// An optional amount: absent or unreadable gives `None`.
pub open spec fn optional_amount(v: Option<Seq<char>>) -> Option<int> {
    match v {
        Some(t) => amount_of(t),
        None => None,
    }
}

/// A parent id of 0 marks a category at the root.
pub open spec fn parent_of(attrs: Seq<Attribute>) -> Option<usize> {
    match optional_id(last_value(attrs, "parent"@)) {
        Some(p) => if p == 0 { None } else { Some(p) },
        None => None,
    }
}

impl Category {
    /// Builds a category from the attributes `key`, `name`, `parent` and
    /// `b0` to `b12`; the last attribute of each name counts.
    pub fn try_from(v: Vec<Attribute>) -> (r: Result<Category, RecordError>)
        ensures
            key_of(v@) is None ==> r == Err::<Category, RecordError>(RecordError::MissingKey),
            key_of(v@) is Some && last_value(v@, "name"@) is None ==> r == Err::<
                Category,
                RecordError,
            >(RecordError::MissingName),
            key_of(v@) is Some && last_value(v@, "name"@) is Some ==> (r matches Ok(c) && {
                &&& c.wf()
                &&& c.id == key_of(v@)->0
                &&& c.name@ == last_value(v@, "name"@)->0
                &&& c.parent == parent_of(v@)
                &&& forall|i: int|
                    0 <= i < 13 ==> match #[trigger] c.budget@[i] {
                        Some(a) => optional_amount(last_value(v@, budget_key(i))) == Some(a as int),
                        None => optional_amount(last_value(v@, budget_key(i))) is None,
                    }
            }),
    {
        let id = match read_key(&v) {
            Some(k) => k,
            None => {
                return Err(RecordError::MissingKey);
            },
        };
        let name = match last_index(&v, "name") {
            Some(i) => v[i].value.clone(),
            None => {
                return Err(RecordError::MissingName);
            },
        };
        let parent = match last_index(&v, "parent") {
            Some(i) => match parse_usize(v[i].value.as_str()) {
                Some(p) => if p == 0 { None } else { Some(p) },
                None => None,
            },
            None => None,
        };
        let mut budget: Vec<Option<i64>> = Vec::new();
        let mut i: usize = 0;
        while i < 13
            invariant
                i <= 13,
                budget@.len() == i,
                forall|j: int|
                    0 <= j < i ==> match #[trigger] budget@[j] {
                        Some(a) => optional_amount(last_value(v@, budget_key(j))) == Some(a as int),
                        None => optional_amount(last_value(v@, budget_key(j))) is None,
                    },
            decreases 13 - i,
        {
            let amount = match last_index(&v, budget_key_text(i)) {
                Some(k) => parse_amount(v[k].value.as_str()),
                None => None,
            };
            budget.push(amount);
            i = i + 1;
        }
        Ok(Category { id, name, parent, budget })
    }
}

impl Account {
    /// Builds an account from the attributes `key`, `name` (not empty),
    /// `curr` (currency id, 0 when absent) and `grp` (group id, optional).
    pub fn try_from(v: Vec<Attribute>) -> (r: Result<Account, RecordError>)
        ensures
            key_of(v@) is None ==> r == Err::<Account, RecordError>(RecordError::MissingKey),
            key_of(v@) is Some && name_of(v@) is None ==> r == Err::<Account, RecordError>(
                RecordError::MissingName,
            ),
            key_of(v@) is Some && name_of(v@) is Some ==> (r matches Ok(a) && {
                &&& a.id == key_of(v@)->0
                &&& a.name@ == name_of(v@)->0
                &&& a.currency == match optional_id(last_value(v@, "curr"@)) {
                    Some(c) => c,
                    None => 0,
                }
                &&& a.group == optional_id(last_value(v@, "grp"@))
            }),
    {
        let id = match read_key(&v) {
            Some(k) => k,
            None => {
                return Err(RecordError::MissingKey);
            },
        };
        let name = match read_name(&v) {
            Some(n) => n,
            None => {
                return Err(RecordError::MissingName);
            },
        };
        let currency = match last_index(&v, "curr") {
            Some(i) => match parse_usize(v[i].value.as_str()) {
                Some(c) => c,
                None => 0,
            },
            None => 0,
        };
        let group = match last_index(&v, "grp") {
            Some(i) => parse_usize(v[i].value.as_str()),
            None => None,
        };
        Ok(Account { id, name, currency, group })
    }
}

impl Payee {
    /// Builds a payee from the attributes `key` and `name` (not empty).
    pub fn try_from(v: Vec<Attribute>) -> (r: Result<Payee, RecordError>)
        ensures
            key_of(v@) is None ==> r == Err::<Payee, RecordError>(RecordError::MissingKey),
            key_of(v@) is Some && name_of(v@) is None ==> r == Err::<Payee, RecordError>(
                RecordError::MissingName,
            ),
            key_of(v@) is Some && name_of(v@) is Some ==> (r matches Ok(p) && p.id == key_of(v@)->0
                && p.name@ == name_of(v@)->0),
    {
        let id = match read_key(&v) {
            Some(k) => k,
            None => {
                return Err(RecordError::MissingKey);
            },
        };
        let name = match read_name(&v) {
            Some(n) => n,
            None => {
                return Err(RecordError::MissingName);
            },
        };
        Ok(Payee { id, name })
    }
}

impl Currency {
    /// Builds a currency from the attributes `key`, `name` (not empty) and
    /// `frac`, its number of decimal places (0 when absent or unreadable).
    pub fn try_from(v: Vec<Attribute>) -> (r: Result<Currency, RecordError>)
        ensures
            key_of(v@) is None ==> r == Err::<Currency, RecordError>(RecordError::MissingKey),
            key_of(v@) is Some && name_of(v@) is None ==> r == Err::<Currency, RecordError>(
                RecordError::MissingName,
            ),
            key_of(v@) is Some && name_of(v@) is Some ==> (r matches Ok(c) && c.id == key_of(v@)->0
                && c.name@ == name_of(v@)->0 && c.precision == match last_value(v@, "frac"@) {
                Some(t) => match u32_of(t) {
                    Some(f) => f,
                    None => 0,
                },
                None => 0,
            }),
    {
        let id = match read_key(&v) {
            Some(k) => k,
            None => {
                return Err(RecordError::MissingKey);
            },
        };
        let name = match read_name(&v) {
            Some(n) => n,
            None => {
                return Err(RecordError::MissingName);
            },
        };
        let precision = match last_index(&v, "frac") {
            Some(i) => match parse_u32(v[i].value.as_str()) {
                Some(f) => f,
                None => 0,
            },
            None => 0,
        };
        Ok(Currency { id, name, precision })
    }
}

/// Why a record could not be added to a ledger.
#[derive(Clone, Copy, Debug, PartialEq, Eq, Structural)]
pub enum LoadError {
    Transaction(TransactionError),
    Record(RecordError),
}

/// The record kinds that a ledger takes in.
pub open spec fn known_kind(kind: Seq<char>) -> bool {
    kind == "account"@ || kind == "cat"@ || kind == "cur"@ || kind == "pay"@ || kind == "ope"@
}

impl HomeBankDb {
    /// Adds what a record of kind `kind` describes: an `account`, a category
    /// (`cat`), a currency (`cur`), a payee (`pay`) or a transaction (`ope`).
    /// Records of other kinds are ignored. A record that makes no entity
    /// leaves the ledger as it was.
    pub fn add_record(&mut self, kind: &str, attrs: Vec<Attribute>) -> (r: Result<(), LoadError>)
        requires
            old(self).wf(),
        ensures
            final(self).wf(),
            r is Err ==> *final(self) == *old(self),
            !known_kind(kind@) ==> r is Ok && *final(self) == *old(self),
            kind@ == "ope"@ ==> (r is Ok <==> record_error(attrs@) is None),
            kind@ == "ope"@ && r is Err ==> r == Err::<(), LoadError>(
                LoadError::Transaction(record_error(attrs@)->0),
            ),
            kind@ == "ope"@ && r is Ok ==> final(self).transactions@.len() == old(
                self,
            ).transactions@.len() + 1 && final(self).transactions@.last().fields_from(attrs@),
            kind@ == "cat"@ ==> (r is Ok <==> (key_of(attrs@) is Some && last_value(attrs@, "name"@) is Some)),
            kind@ == "cat"@ && r is Ok ==> has_key(final(self).categories@, key_of(attrs@)->0),
            kind@ == "account"@ ==> (r is Ok <==> (key_of(attrs@) is Some && name_of(attrs@) is Some)),
            kind@ == "account"@ && r is Ok ==> has_key(final(self).accounts@, key_of(attrs@)->0),
            kind@ == "cur"@ ==> (r is Ok <==> (key_of(attrs@) is Some && name_of(attrs@) is Some)),
            kind@ == "cur"@ && r is Ok ==> has_key(final(self).currencies@, key_of(attrs@)->0),
            kind@ == "pay"@ ==> (r is Ok <==> (key_of(attrs@) is Some && name_of(attrs@) is Some)),
            kind@ == "pay"@ && r is Ok ==> has_key(final(self).payees@, key_of(attrs@)->0),
    {
        proof {
            reveal_strlit("account");
            reveal_strlit("cat");
            reveal_strlit("cur");
            reveal_strlit("pay");
            reveal_strlit("ope");
            assert("cat"@[1] != "cur"@[1]);
            assert("cat"@[0] != "pay"@[0] && "cat"@[0] != "ope"@[0] && "cur"@[0] != "pay"@[0]);
            assert("cur"@[0] != "ope"@[0] && "pay"@[0] != "ope"@[0]);
        }
        if text_eq(kind, "ope") {
            match Transaction::try_from(attrs) {
                Ok(t) => {
                    self.add_transaction(t);
                    Ok(())
                },
                Err(e) => Err(LoadError::Transaction(e)),
            }
        } else if text_eq(kind, "cat") {
            match Category::try_from(attrs) {
                Ok(c) => {
                    self.add_category(c);
                    Ok(())
                },
                Err(e) => Err(LoadError::Record(e)),
            }
        } else if text_eq(kind, "account") {
            match Account::try_from(attrs) {
                Ok(a) => {
                    self.add_account(a);
                    Ok(())
                },
                Err(e) => Err(LoadError::Record(e)),
            }
        } else if text_eq(kind, "cur") {
            match Currency::try_from(attrs) {
                Ok(c) => {
                    self.add_currency(c);
                    Ok(())
                },
                Err(e) => Err(LoadError::Record(e)),
            }
        } else if text_eq(kind, "pay") {
            match Payee::try_from(attrs) {
                Ok(p) => {
                    self.add_payee(p);
                    Ok(())
                },
                Err(e) => Err(LoadError::Record(e)),
            }
        } else {
            Ok(())
        }
    }
}

} // verus!
