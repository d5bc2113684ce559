//! Filtering the transactions of a ledger.
use crate::codes::{PayMode, TransactionStatus};
use crate::date::Date;
use crate::ledger::{entry, full_name, has_key, Category, Group, HomeBankDb};
use crate::numeric::text_eq;
use crate::pattern::{regex_match, Pattern, TextFilter};
use crate::transaction::Transaction;
use vstd::prelude::*;

verus! {

/// A set of independent transaction filters; a transaction passes when it
/// meets every filter that is set. Dates form the half-open window
/// `[date_from, date_to)`; amounts are bounded on both sides inclusively.
#[derive(Debug)]
pub struct QueryTransactions {
    pub date_from: Option<Date>,
    pub date_to: Option<Date>,
    pub account: Option<usize>,
    pub payee: Option<TextFilter>,
    pub category: Option<TextFilter>,
    pub status: Option<TransactionStatus>,
    pub pay_mode: Option<PayMode>,
    pub amount_min: Option<i64>,
    pub amount_max: Option<i64>,
    pub tag: Option<String>,
    pub memo: Option<TextFilter>,
    pub info: Option<TextFilter>,
}

/// An optional text filter passes a missing text only when it is not set.
pub open spec fn text_ok(f: Option<TextFilter>, text: Option<Seq<char>>) -> bool {
    match f {
        Some(f) => text is Some && f.accepts_spec(text->0),
        None => true,
    }
}

/// The payee name of `t` in `db`, if it resolves.
pub open spec fn payee_name_of(db: &HomeBankDb, t: Transaction) -> Option<Seq<char>> {
    match t.payee {
        Some(p) => if has_key(db.payees@, p) { Some(entry(db.payees@, p).name@) } else { None },
        None => None,
    }
}

/// The full category name of `t` in `db`, if it resolves.
pub open spec fn category_name_of(db: &HomeBankDb, t: Transaction) -> Option<Seq<char>> {
    match t.category {
        Some(c) => full_name(db.categories@, c),
        None => None,
    }
}

pub open spec fn opt_text(o: Option<String>) -> Option<Seq<char>> {
    match o {
        Some(s) => Some(s@),
        None => None,
    }
}

/// `t` carries the tag `tag`.
pub open spec fn has_tag(t: Transaction, tag: Seq<char>) -> bool {
    match t.tags {
        Some(ts) => exists|i: int| 0 <= i < ts@.len() && (#[trigger] ts@[i])@ == tag,
        None => false,
    }
}

/// `f2` applies every filter that `f1` applies, with the same value.
pub open spec fn refines(f2: &QueryTransactions, f1: &QueryTransactions) -> bool {
    &&& (f1.date_from is None || f2.date_from == f1.date_from)
    &&& (f1.date_to is None || f2.date_to == f1.date_to)
    &&& (f1.account is None || f2.account == f1.account)
    &&& (f1.payee is None || f2.payee == f1.payee)
    &&& (f1.category is None || f2.category == f1.category)
    &&& (f1.status is None || f2.status == f1.status)
    &&& (f1.pay_mode is None || f2.pay_mode == f1.pay_mode)
    &&& (f1.amount_min is None || f2.amount_min == f1.amount_min)
    &&& (f1.amount_max is None || f2.amount_max == f1.amount_max)
    &&& (f1.tag is None || f2.tag == f1.tag)
    &&& (f1.memo is None || f2.memo == f1.memo)
    &&& (f1.info is None || f2.info == f1.info)
}

impl QueryTransactions {
    /// A query with every filter given.
    pub fn new(
        date_from: Option<Date>,
        date_to: Option<Date>,
        account: Option<usize>,
        payee: Option<TextFilter>,
        category: Option<TextFilter>,
        status: Option<TransactionStatus>,
        pay_mode: Option<PayMode>,
        amount_min: Option<i64>,
        amount_max: Option<i64>,
        tag: Option<String>,
        memo: Option<TextFilter>,
        info: Option<TextFilter>,
    ) -> (r: Self)
        ensures
            r == (QueryTransactions {
                date_from,
                date_to,
                account,
                payee,
                category,
                status,
                pay_mode,
                amount_min,
                amount_max,
                tag,
                memo,
                info,
            }),
    {
        QueryTransactions {
            date_from,
            date_to,
            account,
            payee,
            category,
            status,
            pay_mode,
            amount_min,
            amount_max,
            tag,
            memo,
            info,
        }
    }

    /// The date of `t` lies in the window.
    pub open spec fn date_ok(&self, t: Transaction) -> bool {
        &&& (match self.date_from {
            Some(d) => !t.date.before(d),
            None => true,
        })
        &&& (match self.date_to {
            Some(d) => t.date.before(d),
            None => true,
        })
    }

    /// `t` meets every filter that is set.
    pub open spec fn accepts_spec(&self, db: &HomeBankDb, t: Transaction) -> bool {
        &&& self.date_ok(t)
        &&& (match self.account {
            Some(a) => t.account == a,
            None => true,
        })
        &&& text_ok(self.payee, payee_name_of(db, t))
        &&& text_ok(self.category, category_name_of(db, t))
        &&& (match self.status {
            Some(s) => t.status == s,
            None => true,
        })
        &&& (match self.pay_mode {
            Some(p) => t.pay_mode == p,
            None => true,
        })
        &&& (match self.amount_min {
            Some(m) => t.amount >= m,
            None => true,
        })
        &&& (match self.amount_max {
            Some(m) => t.amount <= m,
            None => true,
        })
        &&& (match self.tag {
            Some(g) => has_tag(t, g@),
            None => true,
        })
        &&& text_ok(self.memo, opt_text(t.memo))
        &&& text_ok(self.info, opt_text(t.info))
    }

    /// The transactions of `ts` that pass, in their order.
    pub open spec fn select(&self, db: &HomeBankDb, ts: Seq<Transaction>) -> Seq<Transaction>
        decreases ts.len(),
    {
        if ts.len() == 0 {
            Seq::empty()
        } else {
            let p = self.select(db, ts.drop_last());
            if self.accepts_spec(db, ts.last()) { p.push(ts.last()) } else { p }
        }
    }

    fn text_passes(f: &Option<TextFilter>, text: Option<&str>) -> (r: bool)
        ensures
            r == text_ok(
                *f,
                match text {
                    Some(s) => Some(s@),
                    None => None,
                },
            ),
    {
        match f {
            Some(f) => match text {
                Some(s) => f.accepts(s),
                None => false,
            },
            None => true,
        }
    }

    fn tag_present(t: &Transaction, tag: &String) -> (r: bool)
        ensures
            r == has_tag(*t, tag@),
    {
        match &t.tags {
            Some(ts) => {
                let mut i: usize = 0;
                while i < ts.len()
                    invariant
                        i <= ts@.len(),
                        t.tags == Some(*ts),
                        forall|j: int| 0 <= j < i ==> (#[trigger] ts@[j])@ != tag@,
                    decreases ts@.len() - i,
                {
                    if text_eq(ts[i].as_str(), tag.as_str()) {
                        proof {
                            assert(ts@[i as int]@ == tag@);
                            let tv = t.tags->0;
                            assert(tv@[i as int]@ == tag@);
                            assert(exists|j: int| 0 <= j < tv@.len() && (#[trigger] tv@[j])@ == tag@);
                        }
                        return true;
                    }
                    i = i + 1;
                }
                false
            },
            None => false,
        }
    }

    /// Whether `t` meets every filter that is set.
    pub fn accepts(&self, db: &HomeBankDb, t: &Transaction) -> (r: bool)
        requires
            db.wf(),
        ensures
            r == self.accepts_spec(db, *t),
    {
        if let Some(d) = &self.date_from {
            if t.date.is_before(d) {
                return false;
            }
        }
        if let Some(d) = &self.date_to {
            if !t.date.is_before(d) {
                return false;
            }
        }
        if let Some(a) = self.account {
            if t.account != a {
                return false;
            }
        }
        if self.payee.is_some() {
            let name = match t.payee {
                Some(p) => db.payee_name(p),
                None => None,
            };
            let ok = match &name {
                Some(s) => Self::text_passes(&self.payee, Some(s.as_str())),
                None => Self::text_passes(&self.payee, None),
            };
            if !ok {
                return false;
            }
        }
        if self.category.is_some() {
            let name = match t.category {
                Some(c) => db.category_full_name(c),
                None => None,
            };
            let ok = match &name {
                Some(s) => Self::text_passes(&self.category, Some(s.as_str())),
                None => Self::text_passes(&self.category, None),
            };
            if !ok {
                return false;
            }
        }
        if let Some(s) = self.status {
            if t.status != s {
                return false;
            }
        }
        if let Some(p) = self.pay_mode {
            if t.pay_mode != p {
                return false;
            }
        }
        if let Some(m) = self.amount_min {
            if t.amount < m {
                return false;
            }
        }
        if let Some(m) = self.amount_max {
            if t.amount > m {
                return false;
            }
        }
        if let Some(g) = &self.tag {
            if !Self::tag_present(t, g) {
                return false;
            }
        }
        let memo_ok = match &t.memo {
            Some(m) => Self::text_passes(&self.memo, Some(m.as_str())),
            None => Self::text_passes(&self.memo, None),
        };
        if !memo_ok {
            return false;
        }
        match &t.info {
            Some(m) => Self::text_passes(&self.info, Some(m.as_str())),
            None => Self::text_passes(&self.info, None),
        }
    }

    /// The transactions of the ledger that pass, in ledger order.
    pub fn exec<'a>(&self, db: &'a HomeBankDb) -> (r: Vec<&'a Transaction>)
        requires
            db.wf(),
        ensures
            r@.map_values(|t: &Transaction| *t) == self.select(db, db.transactions@),
    {
        let mut out: Vec<&'a Transaction> = Vec::new();
        let mut i: usize = 0;
        while i < db.transactions.len()
            invariant
                i <= db.transactions@.len(),
                db.wf(),
                out@.map_values(|t: &Transaction| *t) == self.select(
                    db,
                    db.transactions@.subrange(0, i as int),
                ),
            decreases db.transactions@.len() - i,
        {
            let t = &db.transactions[i];
            let ghost before = out@.map_values(|t: &Transaction| *t);
            proof {
                assert(db.transactions@.subrange(0, i + 1).drop_last() =~= db.transactions@.subrange(
                    0,
                    i as int,
                ));
            }
            if self.accepts(db, t) {
                out.push(t);
                proof {
                    assert(out@.map_values(|t: &Transaction| *t) =~= before.push(*t));
                }
            }
            i = i + 1;
        }
        proof {
            assert(db.transactions@.subrange(0, i as int) =~= db.transactions@);
        }
        out
    }
}

/// The categories whose full name matches `name` (all when it is not set).
#[derive(Debug)]
pub struct QueryCategories {
    pub name: Option<Pattern>,
}

impl QueryCategories {
    /// A category query.
    pub fn new(name: Option<Pattern>) -> (r: Self)
        ensures
            r == (QueryCategories { name }),
    {
        QueryCategories { name }
    }

    /// `c` has a full name that matches.
    pub open spec fn accepts_spec(&self, db: &HomeBankDb, c: Category) -> bool {
        match self.name {
            Some(p) => full_name(db.categories@, c.id) is Some && regex_match(
                p.source_spec(),
                full_name(db.categories@, c.id)->0,
            ),
            None => true,
        }
    }

    /// The categories of `cs` that match, in their order.
    pub open spec fn select(&self, db: &HomeBankDb, cs: Seq<Category>) -> Seq<Category>
        decreases cs.len(),
    {
        if cs.len() == 0 {
            Seq::empty()
        } else {
            let p = self.select(db, cs.drop_last());
            if self.accepts_spec(db, cs.last()) { p.push(cs.last()) } else { p }
        }
    }

    /// The categories of the ledger that match, in ledger order.
    pub fn exec<'a>(&self, db: &'a HomeBankDb) -> (r: Vec<&'a Category>)
        requires
            db.wf(),
        ensures
            r@.map_values(|c: &Category| *c) == self.select(db, db.categories@),
    {
        let mut out: Vec<&'a Category> = Vec::new();
        let mut i: usize = 0;
        while i < db.categories.len()
            invariant
                i <= db.categories@.len(),
                db.wf(),
                out@.map_values(|c: &Category| *c) == self.select(db, db.categories@.subrange(0, i as int)),
            decreases db.categories@.len() - i,
        {
            let c = &db.categories[i];
            let ghost before = out@.map_values(|c: &Category| *c);
            proof {
                assert(db.categories@.subrange(0, i + 1).drop_last() =~= db.categories@.subrange(0, i as int));
            }
            let ok = match &self.name {
                Some(p) => match db.category_full_name(c.id) {
                    Some(n) => p.is_match(n.as_str()),
                    None => false,
                },
                None => true,
            };
            if ok {
                out.push(c);
                proof {
                    assert(out@.map_values(|c: &Category| *c) =~= before.push(*c));
                }
            }
            i = i + 1;
        }
        proof {
            assert(db.categories@.subrange(0, i as int) =~= db.categories@);
        }
        out
    }
}

/// The groups whose name matches `name` (all when it is not set).
#[derive(Debug)]
pub struct QueryGroups {
    pub name: Option<Pattern>,
}

impl QueryGroups {
    /// A group query.
    pub fn new(name: Option<Pattern>) -> (r: Self)
        ensures
            r == (QueryGroups { name }),
    {
        QueryGroups { name }
    }

    /// `g` has a name that matches.
    pub open spec fn accepts_spec(&self, g: Group) -> bool {
        match self.name {
            Some(p) => regex_match(p.source_spec(), g.name@),
            None => true,
        }
    }

    /// The groups of `gs` that match, in their order.
    pub open spec fn select(&self, gs: Seq<Group>) -> Seq<Group>
        decreases gs.len(),
    {
        if gs.len() == 0 {
            Seq::empty()
        } else {
            let p = self.select(gs.drop_last());
            if self.accepts_spec(gs.last()) { p.push(gs.last()) } else { p }
        }
    }

    /// The groups of the ledger that match, in ledger order.
    pub fn exec<'a>(&self, db: &'a HomeBankDb) -> (r: Vec<&'a Group>)
        ensures
            r@.map_values(|g: &Group| *g) == self.select(db.groups@),
    {
        let mut out: Vec<&'a Group> = Vec::new();
        let mut i: usize = 0;
        while i < db.groups.len()
            invariant
                i <= db.groups@.len(),
                out@.map_values(|g: &Group| *g) == self.select(db.groups@.subrange(0, i as int)),
            decreases db.groups@.len() - i,
        {
            let g = &db.groups[i];
            let ghost before = out@.map_values(|g: &Group| *g);
            proof {
                assert(db.groups@.subrange(0, i + 1).drop_last() =~= db.groups@.subrange(0, i as int));
            }
            let ok = match &self.name {
                Some(p) => p.is_match(g.name.as_str()),
                None => true,
            };
            if ok {
                out.push(g);
                proof {
                    assert(out@.map_values(|g: &Group| *g) =~= before.push(*g));
                }
            }
            i = i + 1;
        }
        proof {
            assert(db.groups@.subrange(0, i as int) =~= db.groups@);
        }
        out
    }
}

/// What passes a query is exactly what it selects from the transactions.
pub proof fn lemma_select_member(q: &QueryTransactions, db: &HomeBankDb, ts: Seq<Transaction>, t: Transaction)
    ensures
        q.select(db, ts).contains(t) <==> (ts.contains(t) && q.accepts_spec(db, t)),
    decreases ts.len(),
{
    if ts.len() > 0 {
        lemma_select_member(q, db, ts.drop_last(), t);
        let p = q.select(db, ts.drop_last());
        if ts.contains(t) && t != ts.last() {
            let i = choose|i: int| 0 <= i < ts.len() && ts[i] == t;
            assert(ts.drop_last()[i] == t);
        }
        if ts.drop_last().contains(t) {
            let i = choose|i: int| 0 <= i < ts.drop_last().len() && ts.drop_last()[i] == t;
            assert(ts[i] == t);
        }
        if q.accepts_spec(db, ts.last()) {
            let s = p.push(ts.last());
            assert(s[s.len() - 1] == ts.last());
            if p.contains(t) {
                let i = choose|i: int| 0 <= i < p.len() && p[i] == t;
                assert(s[i] == t);
            }
            if s.contains(t) && t != ts.last() {
                let i = choose|i: int| 0 <= i < s.len() && s[i] == t;
                assert(p[i] == t);
            }
        }
        assert(ts[ts.len() - 1] == ts.last());
    }
}

/// Adding filters only narrows the result: whatever a query with more
/// filters selects, the query with fewer filters selects too.
pub proof fn lemma_filter_conjunction(
    f1: &QueryTransactions,
    f2: &QueryTransactions,
    db: &HomeBankDb,
    t: Transaction,
)
    requires
        refines(f2, f1),
    ensures
        f2.accepts_spec(db, t) ==> f1.accepts_spec(db, t),
        f2.select(db, db.transactions@).contains(t) ==> f1.select(db, db.transactions@).contains(t),
{
    lemma_select_member(f1, db, db.transactions@, t);
    lemma_select_member(f2, db, db.transactions@, t);
}

/// The date window is half-open: a transaction on `date_to` is left out and
/// one on `date_from` is kept, as far as the dates go.
pub proof fn lemma_half_open_window(q: &QueryTransactions, t: Transaction)
    requires
        q.date_from is Some,
        q.date_to is Some,
        q.date_from->0.before(q.date_to->0),
    ensures
        t.date == q.date_to->0 ==> !q.date_ok(t),
        t.date == q.date_from->0 ==> q.date_ok(t),
{
}

} // verus!
