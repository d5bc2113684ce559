//! Budget aggregation: what each budgeted category was allotted over a
//! window of dates, and what was spent in it.
use crate::date::Date;
use crate::ledger::{full_name, Category, HomeBankDb};
use crate::pattern::{regex_match, Pattern, TextFilter};
use crate::query::{category_name_of, QueryTransactions};
use crate::transaction::Transaction;
use vstd::prelude::*;

verus! {

/// Sum of the amounts of `ts`.
pub open spec fn sum_amounts(ts: Seq<Transaction>) -> int
    decreases ts.len(),
{
    if ts.len() == 0 { 0 } else { sum_amounts(ts.drop_last()) + ts.last().amount }
}

/// Sum of the amounts of the transactions, in hundredths.
pub fn sum_transactions(ts: &Vec<&Transaction>) -> (r: i128)
    ensures
        r as int == sum_amounts(ts@.map_values(|t: &Transaction| *t)),
{
    let mut acc: i128 = 0;
    let mut i: usize = 0;
    while i < ts.len()
        invariant
            i <= ts@.len(),
            acc as int == sum_amounts(ts@.subrange(0, i as int).map_values(|t: &Transaction| *t)),
            -(i as int) * 0x8000_0000_0000_0000 <= acc <= (i as int) * 0x8000_0000_0000_0000,
        decreases ts@.len() - i,
    {
        proof {
            assert(ts@.subrange(0, i + 1).map_values(|t: &Transaction| *t).drop_last() =~= ts@.subrange(
                0,
                i as int,
            ).map_values(|t: &Transaction| *t));
            assert(i < 0x1_0000_0000_0000_0000);
        }
        acc = acc + ts[i].amount as i128;
        i = i + 1;
    }
    proof {
        assert(ts@.subrange(0, i as int) =~= ts@);
    }
    acc
}

/// Running total of optional amounts: set once any part is set.
pub open spec fn add_opt(a: Option<int>, b: Option<i64>) -> Option<int> {
    match (a, b) {
        (None, None) => None,
        (Some(x), None) => Some(x),
        (None, Some(y)) => Some(y as int),
        (Some(x), Some(y)) => Some(x + y),
    }
}

/// Months counted from year 0: January of year `y` is `12 * y`.
pub open spec fn month_index(d: Date) -> int {
    d.year as int * 12 + d.month as int - 1
}

/// One past the last month that `[.., to)` reaches into: the month of `to`
/// counts only when the window takes some of its days.
pub open spec fn end_month(to: Date) -> int {
    month_index(to) + if to.day > 1 { 1int } else { 0int }
}

/// The budget of `cat` summed over months `[s, e)`; `None` when none of those
/// months has one.
pub open spec fn allotment(cat: Category, s: int, e: int) -> Option<int>
    decreases e - s,
{
    if e <= s {
        None
    } else {
        add_opt(allotment(cat, s, e - 1), cat.month_budget((e - 1) % 12 + 1))
    }
}

impl Category {
    /// The budget for every month that the window `[from, to)` touches, in
    /// full for a month it only partly covers.
    pub open spec fn budget_over_spec(self, from: Date, to: Date) -> Option<int> {
        allotment(self, month_index(from), end_month(to))
    }

    /// The budget for every month that the window `[from, to)` touches.
    pub fn budget_amount_over_interval(&self, from: Date, to: Date) -> (r: Option<i128>)
        requires
            self.wf(),
            1 <= from.month <= 12,
            1 <= to.month <= 12,
        ensures
            match r {
                Some(v) => self.budget_over_spec(from, to) == Some(v as int),
                None => self.budget_over_spec(from, to) is None,
            },
    {
        let s: i64 = from.year as i64 * 12 + from.month as i64 - 1;
        let e: i64 = to.year as i64 * 12 + to.month as i64 - 1 + if to.day > 1 { 1 } else { 0 };
        let mut k: i64 = s;
        let mut y: i64 = from.year as i64;
        let mut m: i64 = from.month as i64;
        let mut has = false;
        let mut total: i128 = 0;
        while k < e
            invariant
                s <= k,
                k <= e || (e < s && k == s),
                s == month_index(from),
                e == end_month(to),
                self.wf(),
                k == y * 12 + m - 1,
                1 <= m <= 12,
                e <= i32::MAX as i64 * 12 + 12,
                k < e ==> y <= i32::MAX as i64,
                y >= i32::MIN as i64,
                has == (allotment(*self, s as int, k as int) is Some),
                has ==> total as int == allotment(*self, s as int, k as int)->0,
                -(k - s) * 0x8000_0000_0000_0000 <= total <= (k - s) * 0x8000_0000_0000_0000,
                total != 0 ==> has,
            decreases e - k,
        {
            assert((y * 12 + m - 1) % 12 == m - 1) by (nonlinear_arith)
                requires
                    1 <= m <= 12,
            ;
            let b = if self.budget[0].is_some() { self.budget[0] } else { self.budget[m as usize] };
            match b {
                Some(v) => {
                    total = total + v as i128;
                    has = true;
                },
                None => {},
            }
            k = k + 1;
            if m == 12 {
                m = 1;
                y = y + 1;
            } else {
                m = m + 1;
            }
        }
        proof {
            if e >= s {
                assert(k == e);
            } else {
                assert(k == s);
            }
        }
        if has { Some(total) } else { None }
    }
}

/// `a` comes before `b` or equals it, in dictionary order of characters.
pub open spec fn lex_le(a: Seq<char>, b: Seq<char>) -> bool
    decreases a.len(),
{
    if a.len() == 0 {
        true
    } else if b.len() == 0 {
        false
    } else if (a[0] as u32) < (b[0] as u32) {
        true
    } else if (a[0] as u32) > (b[0] as u32) {
        false
    } else {
        lex_le(a.drop_first(), b.drop_first())
    }
}

/// Any two texts are ordered one way or the other.
pub proof fn lemma_lex_total(a: Seq<char>, b: Seq<char>)
    ensures
        lex_le(a, b) || lex_le(b, a),
    decreases a.len(),
{
    if a.len() > 0 && b.len() > 0 && (a[0] as u32) == (b[0] as u32) {
        lemma_lex_total(a.drop_first(), b.drop_first());
    }
}

/// Dictionary order on texts, by character code.
pub fn text_le(a: &str, b: &str) -> (r: bool)
    ensures
        r == lex_le(a@, b@),
{
    let n = a.unicode_len();
    let m = b.unicode_len();
    let mut i: usize = 0;
    proof {
        assert(a@.subrange(0, n as int) =~= a@);
        assert(b@.subrange(0, m as int) =~= b@);
    }
    while i < n && i < m
        invariant
            i <= n == a@.len(),
            i <= m == b@.len(),
            lex_le(a@, b@) == lex_le(a@.subrange(i as int, n as int), b@.subrange(i as int, m as int)),
        decreases n - i,
    {
        let x = a.get_char(i) as u32;
        let y = b.get_char(i) as u32;
        proof {
            assert(a@.subrange(i as int, n as int).drop_first() =~= a@.subrange(i + 1, n as int));
            assert(b@.subrange(i as int, m as int).drop_first() =~= b@.subrange(i + 1, m as int));
        }
        if x < y {
            return true;
        }
        if x > y {
            return false;
        }
        i = i + 1;
    }
    i == n
}

/// A budget report over the window `[date_from, date_to)`, for the
/// categories whose full name matches `name` (all when it is not set).
#[derive(Debug)]
pub struct QueryBudget {
    pub name: Option<Pattern>,
    pub date_from: Date,
    pub date_to: Date,
}

/// One line of a budget report: the category's full name, what was spent in
/// the window (in hundredths), and its budget over the window, if any.
pub type BudgetRow = (String, i128, Option<i128>);

impl QueryBudget {
    /// A budget query.
    pub fn new(name: Option<Pattern>, date_from: Date, date_to: Date) -> (r: Self)
        ensures
            r == (QueryBudget { name, date_from, date_to }),
    {
        QueryBudget { name, date_from, date_to }
    }

    /// The pattern that category names are matched against.
    pub fn name(&self) -> (r: &Option<Pattern>)
        ensures
            *r == self.name,
    {
        &self.name
    }

    /// The first day of the window.
    pub fn date_from(&self) -> (r: &Date)
        ensures
            *r == self.date_from,
    {
        &self.date_from
    }

    /// The day after the window.
    pub fn date_to(&self) -> (r: &Date)
        ensures
            *r == self.date_to,
    {
        &self.date_to
    }

    /// `c` has a budget, a full name, and that name matches the pattern.
    pub open spec fn selects(&self, db: &HomeBankDb, c: Category) -> bool {
        &&& c.has_budget_spec()
        &&& full_name(db.categories@, c.id) is Some
        &&& match self.name {
            Some(p) => regex_match(p.source_spec(), full_name(db.categories@, c.id)->0),
            None => true,
        }
    }

    /// `t` lies in the window and is booked on the category named `name`.
    pub open spec fn in_window(&self, db: &HomeBankDb, name: Seq<char>, t: Transaction) -> bool {
        &&& !t.date.before(self.date_from)
        &&& t.date.before(self.date_to)
        &&& category_name_of(db, t) == Some(name)
    }

    /// The transactions of `ts` in the window on the category named `name`.
    pub open spec fn window_select(&self, db: &HomeBankDb, name: Seq<char>, ts: Seq<Transaction>) -> Seq<
        Transaction,
    >
        decreases ts.len(),
    {
        if ts.len() == 0 {
            Seq::empty()
        } else {
            let p = self.window_select(db, name, ts.drop_last());
            if self.in_window(db, name, ts.last()) { p.push(ts.last()) } else { p }
        }
    }

    /// What was spent in the window on the category named `name`.
    pub open spec fn spent(&self, db: &HomeBankDb, name: Seq<char>) -> int {
        sum_amounts(self.window_select(db, name, db.transactions@))
    }

    /// `row` reports on category `c`.
    pub open spec fn row_of(&self, db: &HomeBankDb, row: BudgetRow, c: Category) -> bool {
        let name = full_name(db.categories@, c.id)->0;
        &&& row.0@ == name
        &&& row.1 as int == self.spent(db, name)
        &&& match row.2 {
            Some(v) => c.budget_over_spec(self.date_from, self.date_to) == Some(v as int),
            None => c.budget_over_spec(self.date_from, self.date_to) is None,
        }
    }

    /// `rows` report on the categories at `idx`, one each: every reported
    /// category and no other.
    pub open spec fn reports(&self, db: &HomeBankDb, rows: Seq<BudgetRow>, idx: Seq<int>) -> bool {
        &&& idx.len() == rows.len()
        &&& forall|k: int|
            0 <= k < rows.len() ==> 0 <= #[trigger] idx[k] < db.categories@.len()
                && self.selects(db, db.categories@[idx[k]]) && self.row_of(
                db,
                rows[k],
                db.categories@[idx[k]],
            )
        &&& forall|k1: int, k2: int|
            0 <= k1 < rows.len() && 0 <= k2 < rows.len() && k1 != k2 ==> #[trigger] idx[k1]
                != #[trigger] idx[k2]
        &&& forall|j: int|
            0 <= j < db.categories@.len() && self.selects(db, #[trigger] db.categories@[j])
                ==> exists|k: int| 0 <= k < rows.len() && #[trigger] idx[k] == j
    }

    /// The rows are ascending by full name.
    pub open spec fn sorted(rows: Seq<BudgetRow>) -> bool {
        forall|k: int| 0 <= k < rows.len() - 1 ==> lex_le((#[trigger] rows[k]).0@, rows[k + 1].0@)
    }
}

impl QueryBudget {
    /// Whether the category at index `j` of the ledger is reported, with its
    /// full name when it is.
    fn select_category(&self, db: &HomeBankDb, j: usize) -> (r: Option<String>)
        requires
            db.wf(),
            j < db.categories@.len(),
        ensures
            r is Some <==> self.selects(db, db.categories@[j as int]),
            r is Some ==> r->0@ == full_name(db.categories@, db.categories@[j as int].id)->0,
    {
        let c = &db.categories[j];
        if !c.has_budget() {
            return None;
        }
        let name = match db.category_full_name(c.id) {
            Some(n) => n,
            None => {
                return None;
            },
        };
        match &self.name {
            Some(p) => if p.is_match(name.as_str()) { Some(name) } else { None },
            None => Some(name),
        }
    }

    /// The reported categories as (full name, index), ascending by name.
    fn sorted_selection(&self, db: &HomeBankDb) -> (r: Vec<(String, usize)>)
        requires
            db.wf(),
        ensures
            forall|k: int|
                0 <= k < r@.len() ==> {
                    let j = (#[trigger] r@[k]).1 as int;
                    &&& 0 <= j < db.categories@.len()
                    &&& self.selects(db, db.categories@[j])
                    &&& r@[k].0@ == full_name(db.categories@, db.categories@[j].id)->0
                },
            forall|k1: int, k2: int|
                0 <= k1 < r@.len() && 0 <= k2 < r@.len() && k1 != k2 ==> (#[trigger] r@[k1]).1
                    != (#[trigger] r@[k2]).1,
            forall|j: int|
                0 <= j < db.categories@.len() && self.selects(db, #[trigger] db.categories@[j])
                    ==> exists|k: int| 0 <= k < r@.len() && (#[trigger] r@[k]).1 == j,
            forall|k: int| 0 <= k < r@.len() - 1 ==> lex_le((#[trigger] r@[k]).0@, r@[k + 1].0@),
    {
        let mut order: Vec<(String, usize)> = Vec::new();
        let mut j: usize = 0;
        while j < db.categories.len()
            invariant
                j <= db.categories@.len(),
                db.wf(),
                forall|k: int|
                    0 <= k < order@.len() ==> {
                        let i = (#[trigger] order@[k]).1 as int;
                        &&& 0 <= i < j
                        &&& self.selects(db, db.categories@[i])
                        &&& order@[k].0@ == full_name(db.categories@, db.categories@[i].id)->0
                    },
                forall|k1: int, k2: int|
                    0 <= k1 < order@.len() && 0 <= k2 < order@.len() && k1 != k2
                        ==> (#[trigger] order@[k1]).1 != (#[trigger] order@[k2]).1,
                forall|i: int|
                    0 <= i < j && self.selects(db, #[trigger] db.categories@[i]) ==> exists|k: int|
                        0 <= k < order@.len() && (#[trigger] order@[k]).1 == i,
                forall|k: int|
                    0 <= k < order@.len() - 1 ==> lex_le(
                        (#[trigger] order@[k]).0@,
                        order@[k + 1].0@,
                    ),
            decreases db.categories@.len() - j,
        {
            match self.select_category(db, j) {
                None => {},
                Some(name) => {
                    let mut p: usize = 0;
                    while p < order.len() && text_le(order[p].0.as_str(), name.as_str())
                        invariant
                            p <= order@.len(),
                            forall|k: int| 0 <= k < p ==> lex_le((#[trigger] order@[k]).0@, name@),
                        decreases order@.len() - p,
                    {
                        p = p + 1;
                    }
                    proof {
                        if p < order@.len() {
                            lemma_lex_total(name@, order@[p as int].0@);
                        }
                    }
                    let ghost old_order = order@;
                    let ghost x = (name, j);
                    order.insert(p, (name, j));
                    proof {
                        assert(order@ == old_order.insert(p as int, x));
                        assert forall|k: int| 0 <= k < order@.len() implies #[trigger] order@[k] == (
                        if k < p {
                            old_order[k]
                        } else if k == p {
                            x
                        } else {
                            old_order[k - 1]
                        }) by {}
                        assert forall|k: int| 0 <= k < order@.len() - 1 implies lex_le(
                            (#[trigger] order@[k]).0@,
                            order@[k + 1].0@,
                        ) by {
                            if k < p - 1 {
                                assert(lex_le(old_order[k].0@, old_order[k + 1].0@));
                            } else if k == p - 1 {
                            } else if k == p {
                            } else {
                                assert(lex_le(old_order[k - 1].0@, old_order[k].0@));
                            }
                        }
                        assert forall|i: int|
                            0 <= i < j + 1 && self.selects(
                                db,
                                #[trigger] db.categories@[i],
                            ) implies exists|k: int|
                            0 <= k < order@.len() && (#[trigger] order@[k]).1 == i by {
                            if i == j {
                                assert(order@[p as int].1 == i);
                            } else {
                                let k0 = choose|k: int|
                                    0 <= k < old_order.len() && (#[trigger] old_order[k]).1 == i;
                                if k0 < p {
                                    assert(order@[k0].1 == i);
                                } else {
                                    assert(order@[k0 + 1].1 == i);
                                }
                            }
                        }
                        assert forall|k1: int, k2: int|
                            0 <= k1 < order@.len() && 0 <= k2 < order@.len() && k1
                                != k2 implies (#[trigger] order@[k1]).1 != (
                        #[trigger] order@[k2]).1 by {
                            if k1 != p && k2 != p {
                                let a = if k1 < p { k1 } else { k1 - 1 };
                                let b = if k2 < p { k2 } else { k2 - 1 };
                                assert(old_order[a] == order@[k1]);
                                assert(old_order[b] == order@[k2]);
                            } else if k1 == p {
                                let b = if k2 < p { k2 } else { k2 - 1 };
                                assert(old_order[b] == order@[k2]);
                            } else {
                                let a = if k1 < p { k1 } else { k1 - 1 };
                                assert(old_order[a] == order@[k1]);
                            }
                        }
                    }
                },
            }
            j = j + 1;
        }
        order
    }
}

impl QueryBudget {
    /// One row per reported category, ascending by full name: each category
    /// that has a budget and whose full name matches the pattern, with what
    /// its transactions in the window add up to and its budget over the
    /// window.
    pub fn exec(&self, db: &HomeBankDb) -> (r: Vec<BudgetRow>)
        requires
            db.wf(),
            1 <= self.date_from.month <= 12,
            1 <= self.date_to.month <= 12,
        ensures
            exists|idx: Seq<int>| #[trigger] self.reports(db, r@, idx),
            Self::sorted(r@),
    {
        let order = self.sorted_selection(db);
        let ghost idx = order@.map_values(|e: (String, usize)| e.1 as int);
        let mut rows: Vec<BudgetRow> = Vec::new();
        let mut k: usize = 0;
        while k < order.len()
            invariant
                k <= order@.len(),
                rows@.len() == k,
                db.wf(),
                1 <= self.date_from.month <= 12,
                1 <= self.date_to.month <= 12,
                idx == order@.map_values(|e: (String, usize)| e.1 as int),
                forall|k: int|
                    0 <= k < order@.len() ==> {
                        let j = (#[trigger] order@[k]).1 as int;
                        &&& 0 <= j < db.categories@.len()
                        &&& self.selects(db, db.categories@[j])
                        &&& order@[k].0@ == full_name(db.categories@, db.categories@[j].id)->0
                    },
                forall|i: int|
                    0 <= i < k ==> self.row_of(db, #[trigger] rows@[i], db.categories@[idx[i]]),
                forall|i: int| 0 <= i < k ==> (#[trigger] rows@[i]).0@ == order@[i].0@,
            decreases order@.len() - k,
        {
            let name = order[k].0.clone();
            let c = &db.categories[order[k].1];
            let tq = QueryTransactions::new(
                Some(self.date_from),
                Some(self.date_to),
                None,
                None,
                Some(TextFilter::Exact(name.clone())),
                None,
                None,
                None,
                None,
                None,
                None,
                None,
            );
            let matched = tq.exec(db);
            let spent = sum_transactions(&matched);
            proof {
                lemma_window_query(self, &tq, db, name@, db.transactions@);
                assert(c.wf());
            }
            let allot = c.budget_amount_over_interval(self.date_from, self.date_to);
            rows.push((name, spent, allot));
            k = k + 1;
        }
        proof {
            assert forall|k: int| 0 <= k < rows@.len() - 1 implies lex_le(
                (#[trigger] rows@[k]).0@,
                rows@[k + 1].0@,
            ) by {
                assert(lex_le(order@[k].0@, order@[k + 1].0@));
            }
            assert forall|j: int|
                0 <= j < db.categories@.len() && self.selects(
                    db,
                    #[trigger] db.categories@[j],
                ) implies exists|k: int| 0 <= k < rows@.len() && #[trigger] idx[k] == j by {
                let k0 = choose|k: int| 0 <= k < order@.len() && (#[trigger] order@[k]).1 == j;
                assert(idx[k0] == j);
            }
            assert forall|k1: int, k2: int|
                0 <= k1 < rows@.len() && 0 <= k2 < rows@.len() && k1 != k2 implies #[trigger] idx[k1]
                != #[trigger] idx[k2] by {
                assert(order@[k1].1 != order@[k2].1);
            }
            assert(self.reports(db, rows@, idx));
        }
        rows
    }
}

proof fn lemma_window_query(
    q: &QueryBudget,
    tq: &QueryTransactions,
    db: &HomeBankDb,
    name: Seq<char>,
    ts: Seq<Transaction>,
)
    requires
        tq.date_from == Some(q.date_from),
        tq.date_to == Some(q.date_to),
        tq.account is None,
        tq.payee is None,
        tq.category is Some,
        tq.category->0 is Exact,
        tq.category->0->Exact_0@ == name,
        tq.status is None,
        tq.pay_mode is None,
        tq.amount_min is None,
        tq.amount_max is None,
        tq.tag is None,
        tq.memo is None,
        tq.info is None,
    ensures
        tq.select(db, ts) == q.window_select(db, name, ts),
    decreases ts.len(),
{
    if ts.len() > 0 {
        lemma_window_query(q, tq, db, name, ts.drop_last());
        assert(tq.accepts_spec(db, ts.last()) == q.in_window(db, name, ts.last()));
    }
}

} // verus!
