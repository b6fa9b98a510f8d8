use vstd::prelude::*;

use crate::calendar::{Date, YearMonth, date_in_range, month_before, next_month_start};
use crate::identity::Identity;
use vstd::pervasive::VecAdditionalExecFns;

use crate::text::{lemma_text_before_asymmetric, text_before, text_equal, text_precedes};

verus! {

broadcast use {vstd::seq_lib::group_to_multiset_ensures, vstd::multiset::group_multiset_axioms};

/// Whether a transaction brings money in or takes it out.
#[derive(Clone, Copy, Debug, PartialEq, Eq, Structural)]
pub enum TransactionKind {
    Income,
    Expense,
}

/// Failures of the ledger operations.
#[derive(Clone, Copy, Debug, PartialEq, Eq, Structural)]
pub enum LedgerError {
    /// The store could not be reached or refused the query.
    StorageFailure,
    /// A stored row holds a value the ledger cannot read.
    DataIntegrityFailure,
}

/// A recorded transaction. Amounts are in cents.
#[derive(Clone, Debug, PartialEq, Eq)]
pub struct Transaction {
    pub owner: Identity,
    pub amount: i64,
    pub kind: TransactionKind,
    pub category: Option<String>,
    pub date: Date,
    pub description: Option<String>,
}

/// A transaction as the store returns it, with its kind still in stored form.
#[derive(Clone, Debug, PartialEq, Eq)]
pub struct TransactionRow {
    pub amount: i64,
    pub kind: String,
    pub category: Option<String>,
    pub date: Date,
    pub description: Option<String>,
}

/// A monthly budget for one category. Amounts are in cents.
#[derive(Clone, Debug, PartialEq, Eq)]
pub struct Budget {
    pub owner: Identity,
    pub month: YearMonth,
    pub category: String,
    pub amount: i64,
}

/// Spending against one budget over its month. Sums are kept in 128 bits so
/// that no number of 64-bit amounts can overflow them.
#[derive(Clone, Debug, PartialEq, Eq)]
pub struct BudgetProgress {
    pub category: String,
    pub budget_amount: i64,
    pub spent: i128,
    pub remaining: i128,
}

/// The stored name of each kind.
pub open spec fn kind_name(k: TransactionKind) -> Seq<char> {
    match k {
        TransactionKind::Income => "income"@,
        TransactionKind::Expense => "expense"@,
    }
}

/// The kind whose stored name is `s`, if any.
pub open spec fn kind_named(s: Seq<char>) -> Option<TransactionKind> {
    if s == "income"@ {
        Some(TransactionKind::Income)
    } else if s == "expense"@ {
        Some(TransactionKind::Expense)
    } else {
        None
    }
}

impl TransactionKind {
    /// The name under which the kind is stored.
    pub fn as_stored(&self) -> (r: &'static str)
        ensures
            r@ == kind_name(*self),
    {
        match self {
            TransactionKind::Income => "income",
            TransactionKind::Expense => "expense",
        }
    }

    /// Reads a stored kind; any other name is a data-integrity failure.
    pub fn from_stored(s: &str) -> (r: Result<TransactionKind, LedgerError>)
        ensures
            match kind_named(s@) {
                Some(k) => r == Ok::<TransactionKind, LedgerError>(k),
                None => r == Err::<TransactionKind, LedgerError>(LedgerError::DataIntegrityFailure),
            },
    {
        if text_equal(s, "income") {
            Ok(TransactionKind::Income)
        } else if text_equal(s, "expense") {
            Ok(TransactionKind::Expense)
        } else {
            Err(LedgerError::DataIntegrityFailure)
        }
    }
}

fn clone_text(s: &Option<String>) -> (r: Option<String>)
    ensures
        r == *s,
{
    match s {
        Some(t) => Some(t.clone()),
        None => None,
    }
}

/// The transaction that a stored row describes for `owner`, or `None` when
/// its kind is not a stored kind name.
pub open spec fn row_transaction(owner: Identity, row: TransactionRow) -> Option<Transaction> {
    match kind_named(row.kind@) {
        Some(k) => Some(
            Transaction {
                owner,
                amount: row.amount,
                kind: k,
                category: row.category,
                date: row.date,
                description: row.description,
            },
        ),
        None => None,
    }
}

impl Transaction {
    /// The transaction that `row` describes for `owner`.
    pub fn from_row(owner: Identity, row: &TransactionRow) -> (r: Result<Transaction, LedgerError>)
        ensures
            match row_transaction(owner, *row) {
                Some(t) => r == Ok::<Transaction, LedgerError>(t),
                None => r == Err::<Transaction, LedgerError>(LedgerError::DataIntegrityFailure),
            },
    {
        let kind = TransactionKind::from_stored(row.kind.as_str())?;
        Ok(
            Transaction {
                owner,
                amount: row.amount,
                kind,
                category: clone_text(&row.category),
                date: row.date,
                description: clone_text(&row.description),
            },
        )
    }
}

/// Reads all of `owner`'s stored rows; a single unreadable kind fails the
/// whole read rather than being skipped.
pub fn transactions_from_rows(owner: Identity, rows: &Vec<TransactionRow>) -> (r: Result<
    Vec<Transaction>,
    LedgerError,
>)
    ensures
        (forall|i: int| 0 <= i < rows@.len() ==> (#[trigger] row_transaction(owner, rows@[i])) is Some)
            ==> r is Ok && r.unwrap()@.len() == rows@.len() && (forall|i: int|
            0 <= i < rows@.len() ==> Some(#[trigger] r.unwrap()@[i]) == row_transaction(
                owner,
                rows@[i],
            )),
        !(forall|i: int|
            0 <= i < rows@.len() ==> (#[trigger] row_transaction(owner, rows@[i])) is Some) ==> r
            == Err::<Vec<Transaction>, LedgerError>(LedgerError::DataIntegrityFailure),
{
    let mut out: Vec<Transaction> = Vec::new();
    let mut i: usize = 0;
    while i < rows.len()
        invariant
            i <= rows@.len(),
            out@.len() == i,
            forall|j: int| 0 <= j < i ==> Some(#[trigger] out@[j]) == row_transaction(owner, rows@[j]),
        decreases rows@.len() - i,
    {
        match Transaction::from_row(owner, &rows[i]) {
            Ok(t) => out.push(t),
            Err(e) => {
                assert(row_transaction(owner, rows@[i as int]) is None);
                return Err(e);
            },
        }
        i = i + 1;
    }
    assert forall|j: int| 0 <= j < rows@.len() implies (#[trigger] row_transaction(
        owner,
        rows@[j],
    )) is Some by {
        assert(Some(out@[j]) == row_transaction(owner, rows@[j]));
    }
    Ok(out)
}

/// Whether `t` counts as spending of `owner` in `category` within `[start, end)`:
/// an expense of that owner, in that category, dated inside the window.
pub open spec fn counts_toward(
    t: Transaction,
    owner: Identity,
    category: Seq<char>,
    start: Date,
    end: Date,
) -> bool {
    &&& t.owner == owner
    &&& t.kind == TransactionKind::Expense
    &&& t.category matches Some(c) && c@ == category
    &&& date_in_range(t.date, start, end)
}

/// Total amount of the transactions in `txs` that count toward the category.
pub open spec fn spent_in(
    txs: Seq<Transaction>,
    owner: Identity,
    category: Seq<char>,
    start: Date,
    end: Date,
) -> int
    decreases txs.len(),
{
    if txs.len() == 0 {
        0
    } else {
        spent_in(txs.drop_last(), owner, category, start, end) + if counts_toward(
            txs.last(),
            owner,
            category,
            start,
            end,
        ) {
            txs.last().amount as int
        } else {
            0
        }
    }
}

/// Sums the amounts of the transactions that count toward `category` for
/// `owner` within `[start, end)`.
pub fn spent_on(txs: &Vec<Transaction>, owner: Identity, category: &String, start: &Date, end: &Date) -> (r:
    i128)
    ensures
        r == spent_in(txs@, owner, category@, *start, *end),
        -(txs@.len() * 0x8000_0000_0000_0000) <= r <= txs@.len() * 0x7fff_ffff_ffff_ffff,
{
    let mut acc: i128 = 0;
    let mut i: usize = 0;
    while i < txs.len()
        invariant
            i <= txs@.len(),
            acc == spent_in(txs@.take(i as int), owner, category@, *start, *end),
            -(i * 0x8000_0000_0000_0000) <= acc <= i * 0x7fff_ffff_ffff_ffff,
        decreases txs@.len() - i,
    {
        let t = &txs[i];
        assert(txs@.take(i + 1).drop_last() =~= txs@.take(i as int));
        let counts = match &t.category {
            Some(c) => t.owner == owner && t.kind == TransactionKind::Expense && text_equal(
                c.as_str(),
                category.as_str(),
            ) && t.date.is_within(start, end),
            None => false,
        };
        if counts {
            acc = acc + t.amount as i128;
        }
        i = i + 1;
    }
    assert(txs@.take(txs@.len() as int) =~= txs@);
    acc
}

/// Whether budget `b` belongs to `owner` and is set for `month`.
pub open spec fn in_scope(b: Budget, owner: Identity, month: YearMonth) -> bool {
    b.owner == owner && b.month == month
}

/// The first day of `month`.
pub open spec fn month_start(month: YearMonth) -> Date {
    Date { year: month.year, month: month.month, day: 1 }
}

/// Progress against budget `b`: what its owner spent in its category during
/// its month, and what is left (negative when overspent).
pub open spec fn progress_of(b: Budget, txs: Seq<Transaction>) -> BudgetProgress {
    let spent = spent_in(txs, b.owner, b.category@, month_start(b.month), next_month_start(b.month));
    BudgetProgress {
        category: b.category,
        budget_amount: b.amount,
        spent: spent as i128,
        remaining: (b.amount - spent) as i128,
    }
}

/// One progress entry per budget of `owner` for `month`, in the order the
/// budgets come.
pub open spec fn progress_rows(
    budgets: Seq<Budget>,
    txs: Seq<Transaction>,
    owner: Identity,
    month: YearMonth,
) -> Seq<BudgetProgress>
    decreases budgets.len(),
{
    if budgets.len() == 0 {
        Seq::empty()
    } else {
        let rest = progress_rows(budgets.drop_last(), txs, owner, month);
        if in_scope(budgets.last(), owner, month) {
            rest.push(progress_of(budgets.last(), txs))
        } else {
            rest
        }
    }
}

/// The transactions in `txs` that belong to `owner`, in order.
pub open spec fn transactions_of(txs: Seq<Transaction>, owner: Identity) -> Seq<Transaction>
    decreases txs.len(),
{
    if txs.len() == 0 {
        txs
    } else {
        let rest = transactions_of(txs.drop_last(), owner);
        if txs.last().owner == owner {
            rest.push(txs.last())
        } else {
            rest
        }
    }
}

/// The budgets in `budgets` that belong to `owner`, in order.
pub open spec fn budgets_of(budgets: Seq<Budget>, owner: Identity) -> Seq<Budget>
    decreases budgets.len(),
{
    if budgets.len() == 0 {
        budgets
    } else {
        let rest = budgets_of(budgets.drop_last(), owner);
        if budgets.last().owner == owner {
            rest.push(budgets.last())
        } else {
            rest
        }
    }
}

/// An identity's spending is the same whatever transactions of other
/// identities stand beside its own.
pub proof fn lemma_spent_ignores_other_owners(
    txs: Seq<Transaction>,
    owner: Identity,
    category: Seq<char>,
    start: Date,
    end: Date,
)
    ensures
        spent_in(txs, owner, category, start, end) == spent_in(
            transactions_of(txs, owner),
            owner,
            category,
            start,
            end,
        ),
    decreases txs.len(),
{
    if txs.len() > 0 {
        lemma_spent_ignores_other_owners(txs.drop_last(), owner, category, start, end);
        if txs.last().owner == owner {
            let o = transactions_of(txs, owner);
            assert(o.drop_last() =~= transactions_of(txs.drop_last(), owner));
        }
    }
}

/// Budget progress for an identity is the same whatever budgets and
/// transactions of other identities stand beside its own: no entry combines
/// rows of two identities.
pub proof fn lemma_progress_ignores_other_owners(
    budgets: Seq<Budget>,
    txs: Seq<Transaction>,
    owner: Identity,
    month: YearMonth,
)
    ensures
        progress_rows(budgets, txs, owner, month) == progress_rows(
            budgets_of(budgets, owner),
            transactions_of(txs, owner),
            owner,
            month,
        ),
    decreases budgets.len(),
{
    if budgets.len() > 0 {
        let b = budgets.last();
        lemma_progress_ignores_other_owners(budgets.drop_last(), txs, owner, month);
        if b.owner == owner {
            let o = budgets_of(budgets, owner);
            assert(o.drop_last() =~= budgets_of(budgets.drop_last(), owner));
            lemma_spent_ignores_other_owners(
                txs,
                owner,
                b.category@,
                month_start(b.month),
                next_month_start(b.month),
            );
        }
    }
}

/// Categories never decrease along `s`.
pub open spec fn sorted_by_category(s: Seq<BudgetProgress>) -> bool {
    forall|i: int| 1 <= i < s.len() ==> !text_before(#[trigger] s[i].category@, s[i - 1].category@)
}

proof fn lemma_insert_to_multiset<A>(s: Seq<A>, i: int, x: A)
    requires
        0 <= i <= s.len(),
    ensures
        s.insert(i, x).to_multiset() =~= s.to_multiset().insert(x),
{
    let t = s.insert(i, x);
    assert(t.remove(i) =~= s);
    assert(t[i] == x);
    assert(t.contains(x));
    assert(t.to_multiset() =~= t.to_multiset().remove(x).insert(x));
}

/// Inserts `p` after every entry whose category does not sort after its own.
fn insert_by_category(out: &mut Vec<BudgetProgress>, p: BudgetProgress)
    requires
        sorted_by_category(old(out)@),
    ensures
        sorted_by_category(final(out)@),
        final(out)@.to_multiset() == old(out)@.to_multiset().insert(p),
{
    let n = out.len();
    let mut pos: usize = 0;
    while pos < n
        invariant
            n == out@.len(),
            pos <= n,
            forall|j: int| 0 <= j < pos ==> !text_before(p.category@, #[trigger] out@[j].category@),
        ensures
            pos <= n,
            forall|j: int| 0 <= j < pos ==> !text_before(p.category@, #[trigger] out@[j].category@),
            pos < n ==> text_before(p.category@, out@[pos as int].category@),
        decreases n - pos,
    {
        if text_precedes(p.category.as_str(), out[pos].category.as_str()) {
            break;
        }
        pos = pos + 1;
    }
    let ghost s = out@;
    out.insert(pos, p);
    proof {
        lemma_insert_to_multiset(s, pos as int, p);
        let t = out@;
        assert forall|i: int| 1 <= i < t.len() implies !text_before(
            #[trigger] t[i].category@,
            t[i - 1].category@,
        ) by {
            if i == pos + 1 {
                lemma_text_before_asymmetric(p.category@, s[pos as int].category@);
            } else if i > pos + 1 {
                assert(t[i] == s[i - 1] && t[i - 1] == s[i - 2]);
            }
        }
    }
}

/// Progress against each of `owner`'s budgets for `month`, sorted by
/// category, counting only `owner`'s expenses dated within the month.
pub fn budget_progress(
    owner: Identity,
    month: YearMonth,
    budgets: &Vec<Budget>,
    txs: &Vec<Transaction>,
) -> (r: Vec<BudgetProgress>)
    requires
        month.wf(),
        month.month == 12 ==> month.year < i32::MAX,
    ensures
        sorted_by_category(r@),
        r@.to_multiset() == progress_rows(budgets@, txs@, owner, month).to_multiset(),
{
    let (start, end) = month.window();
    let tx_count = txs.len();
    let mut out: Vec<BudgetProgress> = Vec::new();
    let mut i: usize = 0;
    while i < budgets.len()
        invariant
            i <= budgets@.len(),
            tx_count == txs@.len(),
            start == month_start(month),
            end == next_month_start(month),
            sorted_by_category(out@),
            out@.to_multiset() == progress_rows(budgets@.take(i as int), txs@, owner, month).to_multiset(),
        decreases budgets@.len() - i,
    {
        let b = &budgets[i];
        assert(budgets@.take(i + 1).drop_last() =~= budgets@.take(i as int));
        if b.owner == owner && b.month == month {
            let spent = spent_on(txs, owner, &b.category, &start, &end);
            let remaining = b.amount as i128 - spent;
            let p = BudgetProgress {
                category: b.category.clone(),
                budget_amount: b.amount,
                spent,
                remaining,
            };
            assert(p == progress_of(*b, txs@));
            insert_by_category(&mut out, p);
        }
        i = i + 1;
    }
    assert(budgets@.take(budgets@.len() as int) =~= budgets@);
    out
}

/// Listing order of budgets: later months first, then categories ascending.
pub open spec fn listed_before(a: Budget, b: Budget) -> bool {
    month_before(b.month, a.month) || (a.month == b.month && text_before(a.category@, b.category@))
}

/// No budget along `s` is listed before the one preceding it.
pub open spec fn in_listing_order(s: Seq<Budget>) -> bool {
    forall|i: int| 1 <= i < s.len() ==> !listed_before(#[trigger] s[i], s[i - 1])
}

/// Whether `b` is one of `owner`'s budgets, for `month` when one is given.
pub open spec fn listed_for(b: Budget, owner: Identity, month: Option<YearMonth>) -> bool {
    b.owner == owner && match month {
        Some(m) => b.month == m,
        None => true,
    }
}

/// `owner`'s budgets among `rows` (for `month` when given), in the order they come.
pub open spec fn listed_budgets(rows: Seq<Budget>, owner: Identity, month: Option<YearMonth>) -> Seq<
    Budget,
>
    decreases rows.len(),
{
    if rows.len() == 0 {
        Seq::empty()
    } else {
        let rest = listed_budgets(rows.drop_last(), owner, month);
        if listed_for(rows.last(), owner, month) {
            rest.push(rows.last())
        } else {
            rest
        }
    }
}

proof fn lemma_listed_before_asymmetric(a: Budget, b: Budget)
    ensures
        listed_before(a, b) ==> !listed_before(b, a),
{
    lemma_text_before_asymmetric(a.category@, b.category@);
}

impl Budget {
    /// A field-by-field copy.
    pub fn duplicate(&self) -> (r: Budget)
        ensures
            r == *self,
    {
        Budget {
            owner: self.owner,
            month: self.month,
            category: self.category.clone(),
            amount: self.amount,
        }
    }

    /// `self` is listed before `other`.
    pub fn listed_before(&self, other: &Budget) -> (r: bool)
        ensures
            r == listed_before(*self, *other),
    {
        other.month.is_before(&self.month) || (self.month == other.month && text_precedes(
            self.category.as_str(),
            other.category.as_str(),
        ))
    }
}

/// Inserts `b` after every budget that is not listed after it.
fn insert_in_listing_order(out: &mut Vec<Budget>, b: Budget)
    requires
        in_listing_order(old(out)@),
    ensures
        in_listing_order(final(out)@),
        final(out)@.to_multiset() == old(out)@.to_multiset().insert(b),
{
    let n = out.len();
    let mut pos: usize = 0;
    while pos < n
        invariant
            n == out@.len(),
            pos <= n,
            forall|j: int| 0 <= j < pos ==> !listed_before(b, #[trigger] out@[j]),
        ensures
            pos <= n,
            forall|j: int| 0 <= j < pos ==> !listed_before(b, #[trigger] out@[j]),
            pos < n ==> listed_before(b, out@[pos as int]),
        decreases n - pos,
    {
        if b.listed_before(&out[pos]) {
            break;
        }
        pos = pos + 1;
    }
    let ghost s = out@;
    out.insert(pos, b);
    proof {
        lemma_insert_to_multiset(s, pos as int, b);
        let t = out@;
        assert forall|i: int| 1 <= i < t.len() implies !listed_before(#[trigger] t[i], t[i - 1]) by {
            if i == pos + 1 {
                lemma_listed_before_asymmetric(b, s[pos as int]);
            } else if i > pos + 1 {
                assert(t[i] == s[i - 1] && t[i - 1] == s[i - 2]);
            }
        }
    }
}

/// `owner`'s budgets among `rows`, only those for `month` when one is given,
/// later months first and categories ascending within a month.
pub fn select_budgets(rows: &Vec<Budget>, owner: Identity, month: Option<YearMonth>) -> (r: Vec<
    Budget,
>)
    ensures
        in_listing_order(r@),
        r@.to_multiset() == listed_budgets(rows@, owner, month).to_multiset(),
{
    let mut out: Vec<Budget> = Vec::new();
    let mut i: usize = 0;
    while i < rows.len()
        invariant
            i <= rows@.len(),
            in_listing_order(out@),
            out@.to_multiset() == listed_budgets(rows@.take(i as int), owner, month).to_multiset(),
        decreases rows@.len() - i,
    {
        let b = &rows[i];
        assert(rows@.take(i + 1).drop_last() =~= rows@.take(i as int));
        let wanted = b.owner == owner && match month {
            Some(m) => b.month == m,
            None => true,
        };
        if wanted {
            insert_in_listing_order(&mut out, b.duplicate());
        }
        i = i + 1;
    }
    assert(rows@.take(rows@.len() as int) =~= rows@);
    out
}

/// Two budgets share the store's key: owner, month and category.
pub open spec fn same_key(a: Budget, b: Budget) -> bool {
    a.owner == b.owner && a.month == b.month && a.category@ == b.category@
}

/// No two rows share a key.
pub open spec fn keys_unique(rows: Seq<Budget>) -> bool {
    forall|i: int, j: int| 0 <= i < j < rows.len() ==> !same_key(#[trigger] rows[i], #[trigger] rows[j])
}

/// Some row holds the key of `b`.
pub open spec fn has_key(rows: Seq<Budget>, b: Budget) -> bool {
    exists|k: int| 0 <= k < rows.len() && same_key(#[trigger] rows[k], b)
}

/// The rows after upserting `b`: a row holding its key is replaced by `b`
/// (the last write wins); when there is none, `b` is added.
pub open spec fn upserted(rows: Seq<Budget>, b: Budget) -> Seq<Budget> {
    if has_key(rows, b) {
        rows.map_values(|r: Budget| if same_key(r, b) { b } else { r })
    } else {
        rows.push(b)
    }
}

/// Inserts `budget` into `rows`, or updates the amount of the row that holds
/// its key.
pub fn upsert_budget(rows: &mut Vec<Budget>, budget: Budget)
    ensures
        final(rows)@ == upserted(old(rows)@, budget),
{
    let ghost before = rows@;
    let n = rows.len();
    let mut found = false;
    let mut i: usize = 0;
    while i < n
        invariant
            n == before.len(),
            rows@.len() == n,
            i <= n,
            forall|j: int|
                0 <= j < i ==> #[trigger] rows@[j] == (if same_key(before[j], budget) {
                    budget
                } else {
                    before[j]
                }),
            forall|j: int| i <= j < n ==> #[trigger] rows@[j] == before[j],
            found == exists|j: int| 0 <= j < i && same_key(#[trigger] before[j], budget),
        decreases n - i,
    {
        let hit = rows[i].owner == budget.owner && rows[i].month == budget.month && text_equal(
            rows[i].category.as_str(),
            budget.category.as_str(),
        );
        if hit {
            rows.set(i, budget.duplicate());
            found = true;
        }
        proof {
            if !hit {
                assert(forall|j: int| 0 <= j < i ==> !same_key(#[trigger] before[j], budget) || found);
            }
        }
        i = i + 1;
    }
    if found {
        assert(rows@ =~= upserted(before, budget));
    } else {
        rows.push(budget);
        assert(rows@ =~= upserted(before, budget));
    }
}

/// Upserting a budget a second time changes nothing; on rows with unique keys
/// it keeps them unique, and exactly one row then holds the budget's key: the
/// budget itself, with its amount.
pub proof fn lemma_upsert_idempotent(rows: Seq<Budget>, b: Budget)
    requires
        keys_unique(rows),
    ensures
        upserted(upserted(rows, b), b) == upserted(rows, b),
        keys_unique(upserted(rows, b)),
        exists|k: int|
            0 <= k < upserted(rows, b).len() && upserted(rows, b)[k] == b && forall|j: int|
                0 <= j < upserted(rows, b).len() && j != k ==> !same_key(
                    #[trigger] upserted(rows, b)[j],
                    b,
                ),
{
    let u = upserted(rows, b);
    if has_key(rows, b) {
        let k = choose|k: int| 0 <= k < rows.len() && same_key(#[trigger] rows[k], b);
        assert(u[k] == b);
        assert forall|j: int| 0 <= j < u.len() && j != k implies !same_key(#[trigger] u[j], b) by {
            if j < k {
                assert(!same_key(rows[j], rows[k]));
            } else {
                assert(!same_key(rows[k], rows[j]));
            }
        }
        assert(has_key(u, b));
        assert(upserted(u, b) =~= u);
    } else {
        let k = rows.len() as int;
        assert(u[k] == b);
        assert(has_key(u, b));
        assert(upserted(u, b) =~= u);
    }
}

} // verus!
