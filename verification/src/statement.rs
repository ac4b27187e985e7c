//! Statements: the lines of a ledger in the order in which they are shown.

use vstd::prelude::*;
use crate::operation::Timestamp;

verus! {

/// One line of a statement: when the operation was made, what it added to
/// the balance, and the balance that stood once it was applied.
#[derive(Clone, Copy, Debug, PartialEq, Eq, Structural)]
pub struct AccountStatementLine {
    pub date: Timestamp,
    pub amount: isize,
    pub balance: isize,
}

/// The lines of an account, most recent first.
#[derive(Debug, PartialEq)]
pub struct AccountStatement {
    pub lines: Vec<AccountStatementLine>,
}

impl View for AccountStatement {
    type V = Seq<AccountStatementLine>;

    open spec fn view(&self) -> Seq<AccountStatementLine> {
        self.lines@
    }
}

/// The dates of the lines, in the order of the lines.
pub open spec fn line_dates(lines: Seq<AccountStatementLine>) -> Seq<Timestamp> {
    Seq::new(lines.len(), |i: int| lines[i].date)
}

/// Whether the entry at `i` is shown before the entry at `j`: it is the more
/// recent of the two, or they share a date and `i` entered first.
pub open spec fn shown_before(dates: Seq<Timestamp>, i: int, j: int) -> bool {
    dates[i].later_than(dates[j]) || (dates[i] == dates[j] && i < j)
}

/// Whether `order` lists the positions of `dates` as a statement shows them:
/// each position once, every earlier one shown before every later one.
pub open spec fn is_display_order(dates: Seq<Timestamp>, order: Seq<int>) -> bool {
    &&& order.len() == dates.len()
    &&& forall|k: int| 0 <= k < order.len() ==> 0 <= #[trigger] order[k] < dates.len()
    &&& forall|i: int| 0 <= i < dates.len() ==> #[trigger] order.contains(i)
    &&& forall|j: int, k: int|
        #![trigger order[j], order[k]]
        0 <= j < k < order.len() ==> shown_before(dates, order[j], order[k])
}

/// The lines picked from `lines` in the given order.
pub open spec fn arranged(lines: Seq<AccountStatementLine>, order: Seq<int>) -> Seq<
    AccountStatementLine,
> {
    Seq::new(order.len(), |k: int| lines[order[k]])
}

/// Whether `shown` holds the lines of `lines`, most recent first, lines of
/// one date in the order in which they stand in `lines`.
pub open spec fn is_most_recent_first(
    lines: Seq<AccountStatementLine>,
    shown: Seq<AccountStatementLine>,
) -> bool {
    exists|order: Seq<int>| #[trigger]
        is_display_order(line_dates(lines), order) && shown == arranged(lines, order)
}

/// Of any two instants one is later, or they are the same.
pub proof fn lemma_dates_total(a: Timestamp, b: Timestamp)
    ensures
        a.later_than(b) || b.later_than(a) || a == b,
        !(a.later_than(b) && b.later_than(a)),
        !a.later_than(a),
{
}

/// There is one way only to show a list of dates: two display orders of the
/// same dates agree up to any position, hence everywhere.
pub proof fn lemma_display_order_agrees(
    dates: Seq<Timestamp>,
    first: Seq<int>,
    second: Seq<int>,
    upto: int,
)
    requires
        is_display_order(dates, first),
        is_display_order(dates, second),
        0 <= upto <= dates.len(),
    ensures
        forall|k: int| 0 <= k < upto ==> first[k] == second[k],
    decreases upto,
{
    if upto > 0 {
        lemma_display_order_agrees(dates, first, second, upto - 1);
        let k = upto - 1;
        let a = first[k];
        let b = second[k];
        assert(second.contains(a));
        assert(first.contains(b));
        let m = choose|m: int| 0 <= m < second.len() && second[m] == a;
        let n = choose|n: int| 0 <= n < first.len() && first[n] == b;
        lemma_dates_total(dates[a], dates[b]);
        if m < k {
            assert(first[m] == second[m]);
            assert(shown_before(dates, first[m], first[k]));
        } else if m > k {
            assert(shown_before(dates, second[k], second[m]));
            if n < k {
                assert(first[n] == second[n]);
                assert(shown_before(dates, second[n], second[k]));
            } else if n > k {
                assert(shown_before(dates, first[k], first[n]));
            }
        }
    }
}

/// There is one way only to show a list of dates.
pub proof fn lemma_display_order_unique(dates: Seq<Timestamp>, first: Seq<int>, second: Seq<int>)
    requires
        is_display_order(dates, first),
        is_display_order(dates, second),
    ensures
        first == second,
{
    lemma_display_order_agrees(dates, first, second, dates.len() as int);
    assert(first =~= second);
}

/// Sorting is a function of the lines: whatever two sorted lists are shown
/// for the same lines, they are the same list.
pub proof fn lemma_most_recent_first_unique(
    lines: Seq<AccountStatementLine>,
    first: Seq<AccountStatementLine>,
    second: Seq<AccountStatementLine>,
)
    requires
        is_most_recent_first(lines, first),
        is_most_recent_first(lines, second),
    ensures
        first == second,
{
    let dates = line_dates(lines);
    let o1 = choose|order: Seq<int>| #[trigger]
        is_display_order(dates, order) && first == arranged(lines, order);
    let o2 = choose|order: Seq<int>| #[trigger]
        is_display_order(dates, order) && second == arranged(lines, order);
    lemma_display_order_unique(dates, o1, o2);
}

/// What is shown holds every line and nothing else, and no line stands
/// above a more recent one.
pub proof fn lemma_most_recent_first_holds(
    lines: Seq<AccountStatementLine>,
    shown: Seq<AccountStatementLine>,
)
    requires
        is_most_recent_first(lines, shown),
    ensures
        shown.len() == lines.len(),
        forall|j: int, k: int|
            0 <= j < k < shown.len() ==> !(#[trigger] shown[k]).date.later_than(
                (#[trigger] shown[j]).date,
            ),
        forall|k: int| 0 <= k < shown.len() ==> lines.contains(#[trigger] shown[k]),
        forall|i: int| 0 <= i < lines.len() ==> shown.contains(#[trigger] lines[i]),
{
    let dates = line_dates(lines);
    let order = choose|order: Seq<int>| #[trigger]
        is_display_order(dates, order) && shown == arranged(lines, order);
    assert forall|j: int, k: int| 0 <= j < k < shown.len() implies !(#[trigger] shown[k]).date.later_than(
        (#[trigger] shown[j]).date,
    ) by {
        assert(shown_before(dates, order[j], order[k]));
    }
    assert forall|k: int| 0 <= k < shown.len() implies lines.contains(#[trigger] shown[k]) by {
        assert(lines[order[k]] == shown[k]);
    }
    assert forall|i: int| 0 <= i < lines.len() implies shown.contains(#[trigger] lines[i]) by {
        assert(order.contains(i));
        let k = choose|k: int| 0 <= k < order.len() && order[k] == i;
        assert(shown[k] == lines[i]);
    }
}

/// Sorts the lines by date, most recent first; lines of one date keep the
/// order in which they came.
pub fn sort_most_recent_first(lines: &Vec<AccountStatementLine>) -> (shown: Vec<
    AccountStatementLine,
>)
    ensures
        is_most_recent_first(lines@, shown@),
        shown@.len() == lines@.len(),
{
    let mut shown: Vec<AccountStatementLine> = Vec::new();
    let ghost dates = line_dates(lines@);
    let ghost mut order: Seq<int> = Seq::empty();
    let mut i: usize = 0;
    while i < lines.len()
        invariant
            i <= lines.len(),
            dates == line_dates(lines@),
            shown@.len() == i,
            order.len() == i,
            forall|k: int| 0 <= k < i ==> 0 <= #[trigger] order[k] < i,
            forall|m: int| 0 <= m < i ==> #[trigger] order.contains(m),
            forall|j: int, k: int|
                #![trigger order[j], order[k]]
                0 <= j < k < i ==> shown_before(dates, order[j], order[k]),
            forall|k: int| 0 <= k < i ==> #[trigger] shown@[k] == lines@[order[k]],
        decreases lines.len() - i,
    {
        let line = lines[i];
        let mut at: usize = 0;
        while at < shown.len() && !line.date.is_after(&shown[at].date)
            invariant
                at <= shown.len(),
                shown@.len() == i,
                forall|k: int| 0 <= k < at ==> !line.date.later_than((#[trigger] shown@[k]).date),
            decreases shown.len() - at,
        {
            at += 1;
        }
        let ghost before = order;
        let ghost shown_before_insert = shown@;
        shown.insert(at, line);
        proof {
            order = before.insert(at as int, i as int);
            before.insert_ensures(at as int, i as int);
            shown_before_insert.insert_ensures(at as int, line);
            assert forall|m: int| 0 <= m < i + 1 implies #[trigger] order.contains(m) by {
                if m == i {
                    assert(order[at as int] == m);
                } else {
                    assert(before.contains(m));
                    let idx = choose|idx: int| 0 <= idx < before.len() && before[idx] == m;
                    if idx < at {
                        assert(order[idx] == m);
                    } else {
                        assert(order[idx + 1] == m);
                    }
                }
            }
            assert forall|k: int| 0 <= k < i + 1 implies #[trigger] shown@[k]
                == lines@[order[k]] by {
                if k < at {
                    assert(shown@[k] == shown_before_insert[k]);
                } else if k > at {
                    assert(shown@[k] == shown_before_insert[k - 1]);
                }
            }
            assert forall|j: int, k: int|
                #![trigger order[j], order[k]]
                0 <= j < k < i + 1 implies shown_before(dates, order[j], order[k]) by {
                let a = order[j];
                let b = order[k];
                if k == at {
                    // every line before the gap is no older than the new one
                    assert(order[j] == before[j]);
                    assert(shown_before_insert[j] == lines@[before[j]]);
                    assert(!line.date.later_than(shown_before_insert[j].date));
                    lemma_dates_total(dates[a], dates[b]);
                } else if j == at {
                    // the line at the gap is older, and so is every line after it
                    assert(order[k] == before[k - 1]);
                    assert(shown_before_insert[at as int] == lines@[before[at as int]]);
                    assert(line.date.later_than(shown_before_insert[at as int].date));
                    if k - 1 > at {
                        assert(shown_before(dates, before[at as int], before[k - 1]));
                    }
                } else {
                    let j0 = if j < at { j } else { j - 1 };
                    let k0 = if k < at { k } else { k - 1 };
                    assert(order[j] == before[j0]);
                    assert(order[k] == before[k0]);
                    assert(shown_before(dates, before[j0], before[k0]));
                }
            }
        }
        i += 1;
    }
    proof {
        assert(shown@ =~= arranged(lines@, order));
        assert(is_display_order(line_dates(lines@), order));
    }
    shown
}

} // verus!
