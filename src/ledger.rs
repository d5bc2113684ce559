//! The ledger store: every entity of a ledger, reachable by id.
use crate::codes::{GroupStatus, PayMode, TransactionStatus, TransactionType};
use crate::date::Date;
use crate::transaction::Transaction;
use vstd::prelude::*;

verus! {

/// An entity of the ledger, identified by a small integer.
pub trait Keyed {
    spec fn key(&self) -> usize;

    fn id(&self) -> (r: usize)
        ensures
            r == self.key(),
    ;
}

/// Some entry of `s` has id `id`.
pub open spec fn has_key<T: Keyed>(s: Seq<T>, id: usize) -> bool {
    exists|i: int| 0 <= i < s.len() && (#[trigger] s[i]).key() == id
}

/// No two entries of `s` share an id.
pub open spec fn unique_keys<T: Keyed>(s: Seq<T>) -> bool {
    forall|i: int, j: int|
        0 <= i < s.len() && 0 <= j < s.len() && (#[trigger] s[i]).key() == (#[trigger] s[j]).key()
            ==> i == j
}

/// The entry of `s` with id `id` (meaningful when `has_key(s, id)`).
pub open spec fn entry<T: Keyed>(s: Seq<T>, id: usize) -> T {
    s[choose|i: int| 0 <= i < s.len() && (#[trigger] s[i]).key() == id]
}

/// With unique ids, the entry with an id is the one at any index carrying it.
pub proof fn lemma_entry_at<T: Keyed>(s: Seq<T>, i: int)
    requires
        unique_keys(s),
        0 <= i < s.len(),
    ensures
        has_key(s, s[i].key()),
        entry(s, s[i].key()) == s[i],
{
    assert(has_key(s, s[i].key()));
    let j = choose|j: int| 0 <= j < s.len() && (#[trigger] s[j]).key() == s[i].key();
    assert(s[j].key() == s[i].key());
}

/// Index of the entry with id `id`.
pub fn find<T: Keyed>(items: &Vec<T>, id: usize) -> (r: Option<usize>)
    ensures
        match r {
            Some(i) => i < items@.len() && items@[i as int].key() == id,
            None => !has_key(items@, id),
        },
{
    let mut i: usize = 0;
    while i < items.len()
        invariant
            i <= items@.len(),
            forall|j: int| 0 <= j < i ==> (#[trigger] items@[j]).key() != id,
        decreases items@.len() - i,
    {
        if items[i].id() == id {
            return Some(i);
        }
        i = i + 1;
    }
    None
}

/// An account that transactions are booked on.
#[derive(Clone, Debug, PartialEq, Eq)]
pub struct Account {
    pub id: usize,
    pub name: String,
    pub currency: usize,
    pub group: Option<usize>,
}

impl Keyed for Account {
    open spec fn key(&self) -> usize {
        self.id
    }

    fn id(&self) -> (r: usize) {
        self.id
    }
}

/// Someone money is paid to or received from.
#[derive(Clone, Debug, PartialEq, Eq)]
pub struct Payee {
    pub id: usize,
    pub name: String,
}

impl Keyed for Payee {
    open spec fn key(&self) -> usize {
        self.id
    }

    fn id(&self) -> (r: usize) {
        self.id
    }
}

/// A currency and the number of decimal places it is shown with.
#[derive(Clone, Debug, PartialEq, Eq)]
pub struct Currency {
    pub id: usize,
    pub name: String,
    pub precision: u32,
}

impl Keyed for Currency {
    open spec fn key(&self) -> usize {
        self.id
    }

    fn id(&self) -> (r: usize) {
        self.id
    }
}

/// A group of accounts.
#[derive(Clone, Debug, PartialEq, Eq)]
pub struct Group {
    pub id: usize,
    pub name: String,
    pub status: GroupStatus,
}

impl Keyed for Group {
    open spec fn key(&self) -> usize {
        self.id
    }

    fn id(&self) -> (r: usize) {
        self.id
    }
}

/// A spending category; categories form a tree through `parent`.
///
/// `budget` holds thirteen entries in hundredths: entry 0 is an amount for
/// every month, entries 1 to 12 are amounts for January to December.
#[derive(Clone, Debug, PartialEq, Eq)]
pub struct Category {
    pub id: usize,
    pub name: String,
    pub parent: Option<usize>,
    pub budget: Vec<Option<i64>>,
}

impl Keyed for Category {
    open spec fn key(&self) -> usize {
        self.id
    }

    fn id(&self) -> (r: usize) {
        self.id
    }
}

impl Category {
    /// The budget has one entry for every month and one for each month.
    pub open spec fn wf(self) -> bool {
        self.budget@.len() == 13
    }

    /// Some budget entry is set.
    pub open spec fn has_budget_spec(self) -> bool {
        exists|i: int| 0 <= i < self.budget@.len() && (#[trigger] self.budget@[i]) is Some
    }

    /// The budget of month `m` (1 to 12): the every-month amount when it is
    /// set, else the amount of that month.
    pub open spec fn month_budget(self, m: int) -> Option<i64> {
        if self.budget@[0] is Some { self.budget@[0] } else { self.budget@[m] }
    }

    /// Whether any budget entry is set.
    pub fn has_budget(&self) -> (r: bool)
        ensures
            r == self.has_budget_spec(),
    {
        let mut i: usize = 0;
        while i < self.budget.len()
            invariant
                i <= self.budget@.len(),
                forall|j: int| 0 <= j < i ==> (#[trigger] self.budget@[j]) is None,
            decreases self.budget@.len() - i,
        {
            if self.budget[i].is_some() {
                return true;
            }
            i = i + 1;
        }
        false
    }
}

/// The dotted name of category `id`, reached in at most `fuel` steps up the
/// parent chain: its parent's full name, a `.`, then its own name. A category
/// without a parent, or whose parent is not in the ledger, is named by itself.
pub open spec fn full_name_fuel(cats: Seq<Category>, id: usize, fuel: nat) -> Option<Seq<char>>
    decreases fuel,
{
    if fuel == 0 || !has_key(cats, id) {
        None
    } else {
        let c = entry(cats, id);
        match c.parent {
            Some(p) => if has_key(cats, p) {
                match full_name_fuel(cats, p, (fuel - 1) as nat) {
                    Some(pn) => Some(pn + seq!['.'] + c.name@),
                    None => None,
                }
            } else {
                Some(c.name@)
            },
            None => Some(c.name@),
        }
    }
}

/// The full name of category `id`. A parent chain longer than the number of
/// categories runs in a cycle, and gives `None`.
pub open spec fn full_name(cats: Seq<Category>, id: usize) -> Option<Seq<char>> {
    full_name_fuel(cats, id, cats.len())
}

/// More steps do not change a name that was found.
pub proof fn lemma_full_name_fuel_mono(cats: Seq<Category>, id: usize, f: nat)
    requires
        full_name_fuel(cats, id, f) is Some,
    ensures
        full_name_fuel(cats, id, f + 1) == full_name_fuel(cats, id, f),
    decreases f,
{
    let c = entry(cats, id);
    if let Some(p) = c.parent {
        if has_key(cats, p) && f > 1 {
            lemma_full_name_fuel_mono(cats, p, (f - 1) as nat);
        }
    }
}

/// The whole ledger: each kind of entity, and the transactions in file order.
#[derive(Debug)]
pub struct HomeBankDb {
    pub accounts: Vec<Account>,
    pub categories: Vec<Category>,
    pub currencies: Vec<Currency>,
    pub groups: Vec<Group>,
    pub payees: Vec<Payee>,
    pub transactions: Vec<Transaction>,
}

impl HomeBankDb {
    /// Ids are unique within each kind, and every category has its budget.
    pub open spec fn wf(&self) -> bool {
        &&& unique_keys(self.accounts@)
        &&& unique_keys(self.categories@)
        &&& unique_keys(self.currencies@)
        &&& unique_keys(self.groups@)
        &&& unique_keys(self.payees@)
        &&& forall|i: int| 0 <= i < self.categories@.len() ==> (#[trigger] self.categories@[i]).wf()
    }

    /// The full name of category `id` in this ledger.
    pub open spec fn category_full_name_spec(&self, id: usize) -> Option<Seq<char>> {
        full_name(self.categories@, id)
    }

    /// The name of account `id`, if the ledger has it.
    pub fn account_name(&self, id: usize) -> (r: Option<String>)
        requires
            self.wf(),
        ensures
            r is Some <==> has_key(self.accounts@, id),
            r is Some ==> r->0@ == entry(self.accounts@, id).name@,
    {
        match find(&self.accounts, id) {
            Some(i) => {
                proof {
                    lemma_entry_at(self.accounts@, i as int);
                }
                Some(self.accounts[i].name.clone())
            },
            None => None,
        }
    }

    /// The name of payee `id`, if the ledger has it.
    pub fn payee_name(&self, id: usize) -> (r: Option<String>)
        requires
            self.wf(),
        ensures
            r is Some <==> has_key(self.payees@, id),
            r is Some ==> r->0@ == entry(self.payees@, id).name@,
    {
        match find(&self.payees, id) {
            Some(i) => {
                proof {
                    lemma_entry_at(self.payees@, i as int);
                }
                Some(self.payees[i].name.clone())
            },
            None => None,
        }
    }

    fn full_name_walk(&self, id: usize, fuel: usize) -> (r: Option<String>)
        requires
            self.wf(),
        ensures
            r is Some <==> full_name_fuel(self.categories@, id, fuel as nat) is Some,
            r is Some ==> r->0@ == full_name_fuel(self.categories@, id, fuel as nat)->0,
        decreases fuel,
    {
        if fuel == 0 {
            return None;
        }
        match find(&self.categories, id) {
            None => None,
            Some(i) => {
                proof {
                    lemma_entry_at(self.categories@, i as int);
                }
                let c = &self.categories[i];
                match c.parent {
                    None => Some(c.name.clone()),
                    Some(p) => match find(&self.categories, p) {
                        None => Some(c.name.clone()),
                        Some(_) => match self.full_name_walk(p, fuel - 1) {
                            Some(pn) => {
                                let mut s = pn;
                                s.append(".");
                                s.append(c.name.as_str());
                                proof {
                                    reveal_strlit(".");
                                }
                                Some(s)
                            },
                            None => None,
                        },
                    },
                }
            },
        }
    }

    /// The full dotted name of category `id`: `None` when the ledger has no
    /// such category or its parent chain runs in a cycle.
    pub fn category_full_name(&self, id: usize) -> (r: Option<String>)
        requires
            self.wf(),
        ensures
            r is Some <==> self.category_full_name_spec(id) is Some,
            r is Some ==> r->0@ == self.category_full_name_spec(id)->0,
    {
        self.full_name_walk(id, self.categories.len())
    }
}

/// A category without a parent is named by its own name.
pub proof fn lemma_full_name_root(db: &HomeBankDb, id: usize)
    requires
        db.wf(),
        has_key(db.categories@, id),
        entry(db.categories@, id).parent is None,
    ensures
        db.category_full_name_spec(id) == Some(entry(db.categories@, id).name@),
{
}

/// A category under parent `C` is named `full_name(C) + "." + its name`,
/// wherever its own full name resolves (its parent chain has no cycle).
pub proof fn lemma_full_name_child(db: &HomeBankDb, id: usize)
    requires
        db.wf(),
        has_key(db.categories@, id),
        entry(db.categories@, id).parent is Some,
        has_key(db.categories@, entry(db.categories@, id).parent->0),
        db.category_full_name_spec(id) is Some,
    ensures
        ({
            let c = entry(db.categories@, id);
            let p = c.parent->0;
            db.category_full_name_spec(p) is Some && db.category_full_name_spec(id) == Some(
                db.category_full_name_spec(p)->0 + seq!['.'] + c.name@,
            )
        }),
{
    let cats = db.categories@;
    let c = entry(cats, id);
    let p = c.parent->0;
    let n = cats.len();
    assert(n > 0);
    lemma_full_name_fuel_mono(cats, p, (n - 1) as nat);
    assert((n - 1) as nat + 1 == n);
}


impl Category {
    /// The full dotted name of this category in `db`.
    pub fn full_name(&self, db: &HomeBankDb) -> (r: Option<String>)
        requires
            db.wf(),
        ensures
            r is Some <==> full_name(db.categories@, self.id) is Some,
            r is Some ==> r->0@ == full_name(db.categories@, self.id)->0,
    {
        db.category_full_name(self.id)
    }
}

impl Transaction {
    /// The date of the transaction.
    pub fn date(&self) -> (r: &Date)
        ensures
            *r == self.date,
    {
        &self.date
    }

    /// The amount, in hundredths.
    pub fn amount(&self) -> (r: &i64)
        ensures
            *r == self.amount,
    {
        &self.amount
    }

    /// The account the transaction is booked on.
    pub fn account(&self) -> (r: usize)
        ensures
            r == self.account,
    {
        self.account
    }

    /// The name of the account, if the ledger has it.
    pub fn account_name(&self, db: &HomeBankDb) -> (r: Option<String>)
        requires
            db.wf(),
        ensures
            r is Some <==> has_key(db.accounts@, self.account),
            r is Some ==> r->0@ == entry(db.accounts@, self.account).name@,
    {
        db.account_name(self.account)
    }

    /// The status of the transaction.
    pub fn status(&self) -> (r: &TransactionStatus)
        ensures
            *r == self.status,
    {
        &self.status
    }

    /// The category id, if any.
    pub fn category(&self) -> (r: &Option<usize>)
        ensures
            *r == self.category,
    {
        &self.category
    }

    /// The full name of the category, when it has one that resolves.
    pub fn category_name(&self, db: &HomeBankDb) -> (r: Option<String>)
        requires
            db.wf(),
        ensures
            r is Some <==> (self.category is Some && full_name(db.categories@, self.category->0) is Some),
            r is Some ==> r->0@ == full_name(db.categories@, self.category->0)->0,
    {
        match self.category {
            Some(c) => db.category_full_name(c),
            None => None,
        }
    }

    /// The payee id, if any.
    pub fn payee(&self) -> (r: &Option<usize>)
        ensures
            *r == self.payee,
    {
        &self.payee
    }

    /// The name of the payee, when it has one that the ledger has.
    pub fn payee_name(&self, db: &HomeBankDb) -> (r: Option<String>)
        requires
            db.wf(),
        ensures
            r is Some <==> (self.payee is Some && has_key(db.payees@, self.payee->0)),
            r is Some ==> r->0@ == entry(db.payees@, self.payee->0).name@,
    {
        match self.payee {
            Some(p) => db.payee_name(p),
            None => None,
        }
    }

    /// The payment method.
    pub fn paymode(&self) -> (r: &PayMode)
        ensures
            *r == self.pay_mode,
    {
        &self.pay_mode
    }

    /// The payment method.
    pub fn pay_mode(&self) -> (r: &PayMode)
        ensures
            *r == self.pay_mode,
    {
        &self.pay_mode
    }

    /// The memo, if any.
    pub fn memo(&self) -> (r: &Option<String>)
        ensures
            *r == self.memo,
    {
        &self.memo
    }

    /// The info field, if any.
    pub fn info(&self) -> (r: &Option<String>)
        ensures
            *r == self.info,
    {
        &self.info
    }

    /// The tags, if any.
    pub fn tags(&self) -> (r: &Option<Vec<String>>)
        ensures
            *r == self.tags,
    {
        &self.tags
    }

    /// The type of the transaction.
    pub fn ttype(&self) -> (r: &TransactionType)
        ensures
            *r == self.transaction_type,
    {
        &self.transaction_type
    }
}


/// Puts `x` in `items`, in place of the entry with the same id if there is one.
pub fn upsert<T: Keyed>(items: &mut Vec<T>, x: T)
    requires
        unique_keys(old(items)@),
    ensures
        unique_keys(final(items)@),
        has_key(final(items)@, x.key()),
        entry(final(items)@, x.key()) == x,
        forall|id: usize|
            id != x.key() ==> (has_key(final(items)@, id) <==> has_key(old(items)@, id)),
        forall|id: usize|
            id != x.key() && has_key(old(items)@, id) ==> entry(final(items)@, id) == entry(
                old(items)@,
                id,
            ),
{
    let ghost pre = items@;
    let key = x.id();
    match find(items, key) {
        Some(i) => {
            items.set(i, x);
            proof {
                assert(items@ == pre.update(i as int, x));
                assert forall|a: int, b: int|
                    0 <= a < items@.len() && 0 <= b < items@.len() && (#[trigger] items@[a]).key()
                        == (#[trigger] items@[b]).key() implies a == b by {
                    if a != i && b != i {
                        assert(pre[a].key() == pre[b].key());
                    } else if a == i && b != i {
                        assert(pre[b].key() == pre[i as int].key());
                    } else if a != i && b == i {
                        assert(pre[a].key() == pre[i as int].key());
                    }
                }
                lemma_entry_at(items@, i as int);
                assert forall|id: usize| id != key implies (has_key(items@, id) <==> has_key(pre, id))
                    && (has_key(pre, id) ==> entry(items@, id) == entry(pre, id)) by {
                    if has_key(pre, id) {
                        let j = choose|j: int| 0 <= j < pre.len() && (#[trigger] pre[j]).key() == id;
                        assert(items@[j] == pre[j]);
                        lemma_entry_at(pre, j);
                        lemma_entry_at(items@, j);
                    }
                    if has_key(items@, id) {
                        let j = choose|j: int| 0 <= j < items@.len() && (#[trigger] items@[j]).key() == id;
                        assert(pre[j] == items@[j]);
                    }
                }
            }
        },
        None => {
            items.push(x);
            proof {
                assert(items@ == pre.push(x));
                assert forall|a: int, b: int|
                    0 <= a < items@.len() && 0 <= b < items@.len() && (#[trigger] items@[a]).key()
                        == (#[trigger] items@[b]).key() implies a == b by {
                    if a < pre.len() && b < pre.len() {
                        assert(pre[a].key() == pre[b].key());
                    } else if a < pre.len() {
                        assert(pre[a].key() == key);
                    } else if b < pre.len() {
                        assert(pre[b].key() == key);
                    }
                }
                lemma_entry_at(items@, pre.len() as int);
                assert forall|id: usize| id != key implies (has_key(items@, id) <==> has_key(pre, id))
                    && (has_key(pre, id) ==> entry(items@, id) == entry(pre, id)) by {
                    if has_key(pre, id) {
                        let j = choose|j: int| 0 <= j < pre.len() && (#[trigger] pre[j]).key() == id;
                        assert(items@[j] == pre[j]);
                        lemma_entry_at(pre, j);
                        lemma_entry_at(items@, j);
                    }
                    if has_key(items@, id) {
                        let j = choose|j: int| 0 <= j < items@.len() && (#[trigger] items@[j]).key() == id;
                        assert(j < pre.len());
                        assert(pre[j] == items@[j]);
                    }
                }
            }
        },
    }
}

impl HomeBankDb {
    /// An empty ledger.
    pub fn new() -> (r: HomeBankDb)
        ensures
            r.wf(),
            r.accounts@.len() == 0,
            r.categories@.len() == 0,
            r.currencies@.len() == 0,
            r.groups@.len() == 0,
            r.payees@.len() == 0,
            r.transactions@.len() == 0,
    {
        HomeBankDb {
            accounts: Vec::new(),
            categories: Vec::new(),
            currencies: Vec::new(),
            groups: Vec::new(),
            payees: Vec::new(),
            transactions: Vec::new(),
        }
    }

    /// Adds an account, replacing the one with the same id.
    pub fn add_account(&mut self, a: Account)
        requires
            old(self).wf(),
        ensures
            final(self).wf(),
            has_key(final(self).accounts@, a.id),
            entry(final(self).accounts@, a.id) == a,
            forall|id: usize|
                id != a.id ==> (has_key(final(self).accounts@, id) <==> has_key(old(self).accounts@, id)),
            final(self).categories == old(self).categories,
            final(self).payees == old(self).payees,
            final(self).transactions == old(self).transactions,
    {
        upsert(&mut self.accounts, a);
    }

    /// Adds a category, replacing the one with the same id.
    pub fn add_category(&mut self, c: Category)
        requires
            old(self).wf(),
            c.wf(),
        ensures
            final(self).wf(),
            has_key(final(self).categories@, c.id),
            entry(final(self).categories@, c.id) == c,
            forall|id: usize|
                id != c.id ==> (has_key(final(self).categories@, id) <==> has_key(
                    old(self).categories@,
                    id,
                )),
            final(self).accounts == old(self).accounts,
            final(self).payees == old(self).payees,
            final(self).transactions == old(self).transactions,
    {
        let ghost pre = self.categories@;
        upsert(&mut self.categories, c);
        proof {
            assert forall|i: int| 0 <= i < self.categories@.len() implies (
            #[trigger] self.categories@[i]).wf() by {
                let id = self.categories@[i].key();
                lemma_entry_at(self.categories@, i);
                if id != c.id {
                    let j = choose|j: int| 0 <= j < pre.len() && (#[trigger] pre[j]).key() == id;
                    lemma_entry_at(pre, j);
                }
            }
        }
    }

    /// Adds a currency, replacing the one with the same id.
    pub fn add_currency(&mut self, c: Currency)
        requires
            old(self).wf(),
        ensures
            final(self).wf(),
            has_key(final(self).currencies@, c.id),
            entry(final(self).currencies@, c.id) == c,
    {
        upsert(&mut self.currencies, c);
    }

    /// Adds a group, replacing the one with the same id.
    pub fn add_group(&mut self, g: Group)
        requires
            old(self).wf(),
        ensures
            final(self).wf(),
            has_key(final(self).groups@, g.id),
            entry(final(self).groups@, g.id) == g,
    {
        upsert(&mut self.groups, g);
    }

    /// Adds a payee, replacing the one with the same id.
    pub fn add_payee(&mut self, p: Payee)
        requires
            old(self).wf(),
        ensures
            final(self).wf(),
            has_key(final(self).payees@, p.id),
            entry(final(self).payees@, p.id) == p,
            forall|id: usize|
                id != p.id ==> (has_key(final(self).payees@, id) <==> has_key(old(self).payees@, id)),
            final(self).accounts == old(self).accounts,
            final(self).categories == old(self).categories,
            final(self).transactions == old(self).transactions,
    {
        upsert(&mut self.payees, p);
    }

    /// Appends a transaction; transactions keep the order they were added in.
    pub fn add_transaction(&mut self, t: Transaction)
        requires
            old(self).wf(),
        ensures
            final(self).wf(),
            final(self).transactions@ == old(self).transactions@.push(t),
            final(self).accounts == old(self).accounts,
            final(self).categories == old(self).categories,
            final(self).payees == old(self).payees,
    {
        self.transactions.push(t);
    }
}

} // verus!
