//! Transactions and their construction from attribute records.
use crate::codes::{pay_mode_code, status_code, PayMode, TransactionStatus, TransactionType};
use crate::date::{epoch_plus, Date, MAX_DATE_OFFSET};
use crate::numeric::{amount_of, parse_amount, parse_u32, parse_usize, text_eq, u32_of, usize_of};
use vstd::prelude::*;

verus! {

/// Why an attribute record does not make a transaction.
#[derive(Clone, Copy, Debug, PartialEq, Eq, Structural)]
pub enum TransactionError {
    MissingAccount,
    MissingAmount,
    MissingDate,
    MissingPayMode,
    MissingPayee,
    InvalidStatus,
    InvalidPayMode,
}

/// One `name="value"` pair of a record.
#[derive(Clone, Debug, PartialEq, Eq)]
pub struct Attribute {
    pub name: String,
    pub value: String,
}

/// The value of the last attribute called `name`, if any.
pub open spec fn last_value(attrs: Seq<Attribute>, name: Seq<char>) -> Option<Seq<char>>
    decreases attrs.len(),
{
    if attrs.len() == 0 {
        None
    } else if attrs.last().name@ == name {
        Some(attrs.last().value@)
    } else {
        last_value(attrs.drop_last(), name)
    }
}

/// The error that a single attribute causes on its own, if any.
pub open spec fn attr_error(a: Attribute) -> Option<TransactionError> {
    let n = a.name@;
    let v = a.value@;
    if n == "account"@ {
        if usize_of(v) is None { Some(TransactionError::MissingAccount) } else { None }
    } else if n == "amount"@ {
        if amount_of(v) is None { Some(TransactionError::MissingAmount) } else { None }
    } else if n == "date"@ {
        match u32_of(v) {
            Some(d) => if d <= MAX_DATE_OFFSET { None } else { Some(TransactionError::MissingDate) },
            None => Some(TransactionError::MissingDate),
        }
    } else if n == "paymode"@ {
        match usize_of(v) {
            Some(c) => if c <= 10 { None } else { Some(TransactionError::InvalidPayMode) },
            None => Some(TransactionError::MissingPayMode),
        }
    } else if n == "status"@ {
        match usize_of(v) {
            Some(c) => if c <= 4 { None } else { Some(TransactionError::InvalidStatus) },
            None => None,
        }
    } else if n == "payee"@ {
        if usize_of(v) is None { Some(TransactionError::MissingPayee) } else { None }
    } else {
        None
    }
}

/// The error of the first attribute, in record order, that causes one.
pub open spec fn first_error(attrs: Seq<Attribute>) -> Option<TransactionError>
    decreases attrs.len(),
{
    if attrs.len() == 0 {
        None
    } else {
        match first_error(attrs.drop_last()) {
            Some(e) => Some(e),
            None => attr_error(attrs.last()),
        }
    }
}

/// Why a record makes no transaction: a bad attribute first, then the first
/// required field (account, amount, date, pay mode) that is absent.
pub open spec fn record_error(attrs: Seq<Attribute>) -> Option<TransactionError> {
    match first_error(attrs) {
        Some(e) => Some(e),
        None => if last_value(attrs, "account"@) is None {
            Some(TransactionError::MissingAccount)
        } else if last_value(attrs, "amount"@) is None {
            Some(TransactionError::MissingAmount)
        } else if last_value(attrs, "date"@) is None {
            Some(TransactionError::MissingDate)
        } else if last_value(attrs, "paymode"@) is None {
            Some(TransactionError::MissingPayMode)
        } else {
            None
        },
    }
}

/// An optional id field: absent or unreadable gives `None`.
pub open spec fn optional_id(v: Option<Seq<char>>) -> Option<usize> {
    match v {
        Some(t) => usize_of(t),
        None => None,
    }
}

/// An optional text field: absent or empty gives `None`.
pub open spec fn optional_text(v: Option<Seq<char>>) -> Option<Seq<char>> {
    match v {
        Some(t) => if t.len() == 0 { None } else { Some(t) },
        None => None,
    }
}

/// The pieces of `s` between commas, in order; there is always at least one.
pub open spec fn split_commas(s: Seq<char>) -> Seq<Seq<char>>
    decreases s.len(),
{
    if s.len() == 0 {
        seq![Seq::empty()]
    } else {
        let p = split_commas(s.drop_last());
        if s.last() == ',' {
            p.push(Seq::empty())
        } else {
            p.update(p.len() - 1, p.last().push(s.last()))
        }
    }
}

/// The record marks an inter-account transfer: its `kxfer` link is a
/// positive id.
pub open spec fn transfer_marked(attrs: Seq<Attribute>) -> bool {
    match optional_id(last_value(attrs, "kxfer"@)) {
        Some(k) => k > 0,
        None => false,
    }
}

/// The type of a transaction: a transfer stays one; otherwise a positive
/// amount is an income and any other an expense.
pub open spec fn type_of(transfer: bool, amount: int) -> TransactionType {
    if transfer {
        TransactionType::Transfer
    } else if amount > 0 {
        TransactionType::Income
    } else {
        TransactionType::Expense
    }
}

pub open spec fn text_view(o: Option<String>) -> Option<Seq<char>> {
    match o {
        Some(s) => Some(s@),
        None => None,
    }
}

pub open spec fn tags_view(o: Option<Vec<String>>) -> Option<Seq<Seq<char>>> {
    match o {
        Some(v) => Some(v@.map_values(|s: String| s@)),
        None => None,
    }
}

/// A ledger entry: money moved on a date from or to an account.
/// `amount` is in hundredths of the currency unit.
#[derive(Clone, Debug, PartialEq, Eq)]
pub struct Transaction {
    pub date: Date,
    pub amount: i64,
    pub account: usize,
    pub pay_mode: PayMode,
    pub status: TransactionStatus,
    pub flags: Option<usize>,
    pub payee: Option<usize>,
    pub category: Option<usize>,
    pub memo: Option<String>,
    pub info: Option<String>,
    pub tags: Option<Vec<String>>,
    pub transaction_type: TransactionType,
}

impl Transaction {
    /// Each field is what the last attribute of its name says.
    pub open spec fn fields_from(self, attrs: Seq<Attribute>) -> bool {
        &&& self.account == usize_of(last_value(attrs, "account"@)->0)->0
        &&& self.amount as int == amount_of(last_value(attrs, "amount"@)->0)->0
        &&& self.date.wf()
        &&& self.date.offset_spec() == u32_of(last_value(attrs, "date"@)->0)->0 as int
        &&& pay_mode_code(self.pay_mode) == usize_of(last_value(attrs, "paymode"@)->0)->0
        &&& status_code(self.status) == match optional_id(last_value(attrs, "status"@)) {
            Some(c) => c as nat,
            None => 0,
        }
        &&& self.flags == optional_id(last_value(attrs, "flags"@))
        &&& self.payee == optional_id(last_value(attrs, "payee"@))
        &&& self.category == optional_id(last_value(attrs, "category"@))
        &&& text_view(self.memo) == optional_text(last_value(attrs, "wording"@))
        &&& text_view(self.info) == optional_text(last_value(attrs, "info"@))
        &&& tags_view(self.tags) == match optional_text(last_value(attrs, "tags"@)) {
            Some(t) => Some(split_commas(t)),
            None => None,
        }
        &&& self.transaction_type == type_of(transfer_marked(attrs), self.amount as int)
    }
}

proof fn lemma_first_error_prefix(s: Seq<Attribute>, k: int)
    requires
        0 <= k <= s.len(),
        first_error(s.subrange(0, k)) is Some,
    ensures
        first_error(s) == first_error(s.subrange(0, k)),
    decreases s.len() - k,
{
    if k < s.len() {
        assert(s.subrange(0, k + 1).drop_last() =~= s.subrange(0, k));
        lemma_first_error_prefix(s, k + 1);
    } else {
        assert(s.subrange(0, k) =~= s);
    }
}

/// Index of the last attribute called `name`.
pub(crate) fn last_index(attrs: &Vec<Attribute>, name: &str) -> (r: Option<usize>)
    ensures
        match r {
            Some(i) => i < attrs@.len() && attrs@[i as int].name@ == name@ && last_value(
                attrs@,
                name@,
            ) == Some(attrs@[i as int].value@),
            None => last_value(attrs@, name@) is None,
        },
{
    let mut i = attrs.len();
    proof {
        assert(attrs@.subrange(0, i as int) =~= attrs@);
    }
    while i > 0
        invariant
            i <= attrs@.len(),
            last_value(attrs@, name@) == last_value(attrs@.subrange(0, i as int), name@),
        decreases i,
    {
        let ghost p = attrs@.subrange(0, i as int);
        proof {
            assert(p.drop_last() =~= attrs@.subrange(0, i - 1));
        }
        if text_eq(attrs[i - 1].name.as_str(), name) {
            return Some(i - 1);
        }
        i = i - 1;
    }
    None
}

/// The error that `a` causes on its own, if any.
fn attribute_error(a: &Attribute) -> (r: Option<TransactionError>)
    ensures
        r == attr_error(*a),
{
    let n = a.name.as_str();
    let v = a.value.as_str();
    if text_eq(n, "account") {
        if parse_usize(v).is_none() { Some(TransactionError::MissingAccount) } else { None }
    } else if text_eq(n, "amount") {
        if parse_amount(v).is_none() { Some(TransactionError::MissingAmount) } else { None }
    } else if text_eq(n, "date") {
        match parse_u32(v) {
            Some(d) => if d <= MAX_DATE_OFFSET { None } else { Some(TransactionError::MissingDate) },
            None => Some(TransactionError::MissingDate),
        }
    } else if text_eq(n, "paymode") {
        match parse_usize(v) {
            Some(c) => if c <= 10 { None } else { Some(TransactionError::InvalidPayMode) },
            None => Some(TransactionError::MissingPayMode),
        }
    } else if text_eq(n, "status") {
        match parse_usize(v) {
            Some(c) => if c <= 4 { None } else { Some(TransactionError::InvalidStatus) },
            None => None,
        }
    } else if text_eq(n, "payee") {
        if parse_usize(v).is_none() { Some(TransactionError::MissingPayee) } else { None }
    } else {
        None
    }
}

/// Splits `s` at each comma, keeping empty pieces.
pub fn split_tags(s: &str) -> (r: Vec<String>)
    ensures
        r@.map_values(|x: String| x@) == split_commas(s@),
{
    let n = s.unicode_len();
    let mut pieces: Vec<String> = Vec::new();
    let mut start: usize = 0;
    let mut i: usize = 0;
    proof {
        assert(s@.subrange(0, 0) =~= Seq::<char>::empty());
        assert(pieces@.map_values(|x: String| x@).push(s@.subrange(0, 0)) =~= split_commas(
            s@.subrange(0, 0),
        ));
    }
    while i < n
        invariant
            start <= i <= n == s@.len(),
            pieces@.map_values(|x: String| x@).push(s@.subrange(start as int, i as int))
                == split_commas(s@.subrange(0, i as int)),
        decreases n - i,
    {
        let c = s.get_char(i);
        let ghost before = pieces@.map_values(|x: String| x@);
        proof {
            assert(s@.subrange(0, i + 1).drop_last() =~= s@.subrange(0, i as int));
        }
        if c == ',' {
            let piece = s.substring_char(start, i).to_owned();
            pieces.push(piece);
            start = i + 1;
            proof {
                assert(pieces@.map_values(|x: String| x@) =~= before.push(piece@));
                assert(s@.subrange(start as int, i + 1) =~= Seq::<char>::empty());
            }
        } else {
            proof {
                assert(s@.subrange(start as int, i + 1) =~= s@.subrange(start as int, i as int).push(c));
                assert(before.push(s@.subrange(start as int, i + 1)) =~= before.push(
                    s@.subrange(start as int, i as int),
                ).update(before.len() as int, s@.subrange(start as int, i as int).push(c)));
            }
        }
        i = i + 1;
    }
    let last = s.substring_char(start, n).to_owned();
    let ghost before = pieces@.map_values(|x: String| x@);
    pieces.push(last);
    proof {
        assert(pieces@.map_values(|x: String| x@) =~= before.push(last@));
        assert(s@.subrange(0, n as int) =~= s@);
    }
    pieces
}

impl Transaction {
    /// Builds a transaction from the attributes of one record. Unknown
    /// attributes are ignored and, for each name, the last attribute counts.
    /// An unreadable required field is an error as if it were absent; an
    /// unreadable optional one (category, flags, status) reads as absent.
    pub fn try_from(v: Vec<Attribute>) -> (r: Result<Transaction, TransactionError>)
        ensures
            r is Err <==> record_error(v@) is Some,
            r is Err ==> r->Err_0 == record_error(v@)->0,
            r is Ok ==> r->Ok_0.fields_from(v@),
    {
        let mut i: usize = 0;
        while i < v.len()
            invariant
                i <= v@.len(),
                first_error(v@.subrange(0, i as int)) is None,
                forall|j: int| 0 <= j < i ==> attr_error(#[trigger] v@[j]) is None,
            decreases v@.len() - i,
        {
            proof {
                assert(v@.subrange(0, i + 1).drop_last() =~= v@.subrange(0, i as int));
            }
            match attribute_error(&v[i]) {
                Some(e) => {
                    proof {
                        lemma_first_error_prefix(v@, i + 1);
                    }
                    return Err(e);
                },
                None => {},
            }
            i = i + 1;
        }
        proof {
            assert(v@.subrange(0, v@.len() as int) =~= v@);
        }
        let ai = match last_index(&v, "account") {
            Some(k) => k,
            None => {
                return Err(TransactionError::MissingAccount);
            },
        };
        let mi = match last_index(&v, "amount") {
            Some(k) => k,
            None => {
                proof {
                    assert(first_error(v@) is None);
                    assert(last_value(v@, "account"@) is Some);
                }
                return Err(TransactionError::MissingAmount);
            },
        };
        let di = match last_index(&v, "date") {
            Some(k) => k,
            None => {
                proof {
                    assert(first_error(v@) is None);
                    assert(last_value(v@, "account"@) is Some);
                }
                return Err(TransactionError::MissingDate);
            },
        };
        let pi = match last_index(&v, "paymode") {
            Some(k) => k,
            None => {
                proof {
                    assert(first_error(v@) is None);
                    assert(last_value(v@, "account"@) is Some);
                }
                return Err(TransactionError::MissingPayMode);
            },
        };
        proof {
            reveal_strlit("account");
            reveal_strlit("amount");
            reveal_strlit("date");
            reveal_strlit("paymode");
            reveal_strlit("status");
            reveal_strlit("payee");
            assert(attr_error(v@[ai as int]) is None);
            assert(attr_error(v@[mi as int]) is None);
            assert(attr_error(v@[di as int]) is None);
            assert(attr_error(v@[pi as int]) is None);
            assert("amount"@.len() == 6 && "account"@.len() == 7 && "date"@.len() == 4);
            assert(amount_of(v@[mi as int].value@) is Some);
            assert(u32_of(v@[di as int].value@) is Some);
            assert("paymode"@[0] != "account"@[0] && "status"@[0] != "amount"@[0]);
            assert("paymode"@.len() == 7 && "status"@.len() == 6 && "payee"@.len() == 5);
            assert(usize_of(v@[pi as int].value@) is Some);
            assert(usize_of(v@[pi as int].value@)->0 <= 10);
        }
        let account = match parse_usize(v[ai].value.as_str()) {
            Some(a) => a,
            None => {
                return Err(TransactionError::MissingAccount);
            },
        };
        let amount = match parse_amount(v[mi].value.as_str()) {
            Some(a) => a,
            None => {
                return Err(TransactionError::MissingAmount);
            },
        };
        let date = match parse_u32(v[di].value.as_str()) {
            Some(d) => match epoch_plus(d) {
                Some(dt) => dt,
                None => {
                    return Err(TransactionError::MissingDate);
                },
            },
            None => {
                return Err(TransactionError::MissingDate);
            },
        };
        let pay_mode = match parse_usize(v[pi].value.as_str()) {
            Some(c) => match PayMode::from_code(c) {
                Some(p) => p,
                None => {
                    return Err(TransactionError::InvalidPayMode);
                },
            },
            None => {
                return Err(TransactionError::MissingPayMode);
            },
        };
        let status = match last_index(&v, "status") {
            Some(k) => {
                proof {
                    assert(attr_error(v@[k as int]) is None);
                    assert(v@[k as int].name@ == "status"@);
                    assert(usize_of(v@[k as int].value@) is Some ==> usize_of(v@[k as int].value@)->0 <= 4);
                }
                match parse_usize(v[k].value.as_str()) {
                    Some(c) => match TransactionStatus::from_code(c) {
                        Some(st) => st,
                        None => {
                            return Err(TransactionError::InvalidStatus);
                        },
                    },
                    None => TransactionStatus::Unspecified,
                }
            },
            None => TransactionStatus::Unspecified,
        };
        let flags = match last_index(&v, "flags") {
            Some(k) => parse_usize(v[k].value.as_str()),
            None => None,
        };
        let payee = match last_index(&v, "payee") {
            Some(k) => parse_usize(v[k].value.as_str()),
            None => None,
        };
        let category = match last_index(&v, "category") {
            Some(k) => parse_usize(v[k].value.as_str()),
            None => None,
        };
        let memo = match last_index(&v, "wording") {
            Some(k) => if v[k].value.unicode_len() == 0 { None } else { Some(v[k].value.clone()) },
            None => None,
        };
        let info = match last_index(&v, "info") {
            Some(k) => if v[k].value.unicode_len() == 0 { None } else { Some(v[k].value.clone()) },
            None => None,
        };
        let tags = match last_index(&v, "tags") {
            Some(k) => if v[k].value.unicode_len() == 0 {
                None
            } else {
                Some(split_tags(v[k].value.as_str()))
            },
            None => None,
        };
        let transfer = match last_index(&v, "kxfer") {
            Some(k) => match parse_usize(v[k].value.as_str()) {
                Some(x) => x > 0,
                None => false,
            },
            None => false,
        };
        let transaction_type = if transfer {
            TransactionType::Transfer
        } else if amount > 0 {
            TransactionType::Income
        } else {
            TransactionType::Expense
        };
        Ok(
            Transaction {
                date,
                amount,
                account,
                pay_mode,
                status,
                flags,
                payee,
                category,
                memo,
                info,
                tags,
                transaction_type,
            },
        )
    }
}

} // verus!
