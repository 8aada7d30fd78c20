use vstd::prelude::*;
use crate::model::{Criteria, LoanOffer, Order, StateSnapshot};

verus! {

/// An offer is worth funding when it is open, its term is within
/// `max_term` and its rate beats `min_rate` strictly.
pub open spec fn passes(o: LoanOffer, max_term: i32, min_rate: i64) -> bool {
    &&& o.available
    &&& o.term_days <= max_term
    &&& o.rate > min_rate
}

pub open spec fn qualifies(o: LoanOffer, c: Criteria) -> bool {
    passes(o, c.max_term, c.min_interest_rate)
}

/// Index `i` holds the best offer: it qualifies, no qualifying offer has a
/// higher rate, and every qualifying offer before it has a lower rate (the
/// first of equal best rates wins).
pub open spec fn is_best(offers: Seq<LoanOffer>, c: Criteria, i: int) -> bool {
    &&& 0 <= i < offers.len()
    &&& qualifies(offers[i], c)
    &&& forall|j: int| 0 <= j < offers.len() && qualifies(offers[j], c)
        ==> offers[j].rate <= offers[i].rate
    &&& forall|j: int| 0 <= j < i && qualifies(offers[j], c)
        ==> offers[j].rate < offers[i].rate
}

pub open spec fn any_qualifies(offers: Seq<LoanOffer>, c: Criteria) -> bool {
    exists|j: int| 0 <= j < offers.len() && qualifies(offers[j], c)
}

/// Picks the single offer with the strictly highest qualifying rate,
/// scanning in order and replacing the running best only on a strictly
/// greater rate.
pub fn select_best(offers: &Vec<LoanOffer>, c: &Criteria) -> (r: Option<usize>)
    ensures
        r is None <==> !any_qualifies(offers@, *c),
        r matches Some(i) ==> is_best(offers@, *c, i as int),
{
    let mut best: Option<usize> = None;
    let mut best_rate: i64 = c.min_interest_rate;
    let mut k: usize = 0;
    while k < offers.len()
        invariant
            k <= offers@.len(),
            best is None ==> best_rate == c.min_interest_rate,
            best is None ==> forall|j: int| 0 <= j < k ==> !qualifies(#[trigger] offers@[j], *c),
            best matches Some(b) ==> {
                &&& b < k
                &&& best_rate == offers@[b as int].rate
                &&& qualifies(offers@[b as int], *c)
                &&& forall|j: int| 0 <= j < k && qualifies(#[trigger] offers@[j], *c)
                    ==> offers@[j].rate <= best_rate
                &&& forall|j: int| 0 <= j < b && qualifies(#[trigger] offers@[j], *c)
                    ==> offers@[j].rate < best_rate
            },
        decreases offers@.len() - k,
    {
        let o = offers[k];
        if o.available && o.term_days <= c.max_term && o.rate > best_rate {
            best = Some(k);
            best_rate = o.rate;
        }
        k = k + 1;
    }
    best
}

/// The offer that the engine picks, if any offer qualifies.
pub open spec fn best_offer(offers: Seq<LoanOffer>, c: Criteria) -> Option<int> {
    if exists|i: int| is_best(offers, c, i) {
        Some(choose|i: int| is_best(offers, c, i))
    } else {
        None
    }
}

/// The amount of one order: the fixed increment, but never more than the cash.
pub open spec fn ticket(cash: i64, c: Criteria) -> i64 {
    if c.investment_increment <= cash {
        c.investment_increment
    } else {
        cash
    }
}

/// The orders of one selection pass: nothing when the cash is below the
/// minimum investable unit, when the ticket would not be positive, or when no
/// offer qualifies; else one order of one ticket for the best offer.
pub open spec fn planned_orders(cash: i64, offers: Seq<LoanOffer>, c: Criteria) -> Seq<Order> {
    if cash < c.minimum_investable_unit || ticket(cash, c) <= 0 {
        Seq::empty()
    } else {
        match best_offer(offers, c) {
            None => Seq::empty(),
            Some(i) => seq![Order { target_id: offers[i].id, amount: ticket(cash, c) }],
        }
    }
}

/// At most one index is the best.
pub proof fn lemma_best_unique(offers: Seq<LoanOffer>, c: Criteria, i: int, j: int)
    requires
        is_best(offers, c, i),
        is_best(offers, c, j),
    ensures
        i == j,
{
    if i < j {
        assert(offers[i].rate < offers[j].rate);
    } else if j < i {
        assert(offers[j].rate < offers[i].rate);
    }
}

/// Whenever some offer qualifies, a best one exists.
pub proof fn lemma_best_exists(offers: Seq<LoanOffer>, c: Criteria)
    requires
        any_qualifies(offers, c),
    ensures
        exists|i: int| is_best(offers, c, i),
    decreases offers.len(),
{
    let n = offers.len() - 1;
    let p = offers.drop_last();
    assert(forall|j: int| 0 <= j < n ==> p[j] == offers[j]);
    if any_qualifies(p, c) {
        lemma_best_exists(p, c);
        let b = choose|i: int| is_best(p, c, i);
        if qualifies(offers[n], c) && offers[n].rate > offers[b].rate {
            assert(is_best(offers, c, n));
        } else {
            assert(is_best(offers, c, b));
        }
    } else {
        assert(is_best(offers, c, n));
    }
}

/// `best_offer` is `None` exactly when nothing qualifies, and otherwise the
/// best index.
pub proof fn lemma_best_offer(offers: Seq<LoanOffer>, c: Criteria)
    ensures
        best_offer(offers, c) is None <==> !any_qualifies(offers, c),
        best_offer(offers, c) matches Some(i) ==> is_best(offers, c, i),
{
    if any_qualifies(offers, c) {
        lemma_best_exists(offers, c);
    }
}

/// The selection engine: one order for the best qualifying offer, sized at
/// the fixed increment capped by the cash, or none when the cash is below the
/// minimum investable unit, the ticket would not be positive, or nothing
/// qualifies.
pub fn select_orders(snapshot: &StateSnapshot, c: &Criteria) -> (r: Vec<Order>)
    ensures
        r@ == planned_orders(snapshot.cash_balance, snapshot.loan_offers@, *c),
        r@.len() <= 1,
        r@.len() == 1 ==> 0 < r@[0].amount <= snapshot.cash_balance,
{
    let mut orders: Vec<Order> = Vec::new();
    let cash = snapshot.cash_balance;
    let amount = if c.investment_increment <= cash {
        c.investment_increment
    } else {
        cash
    };
    if cash < c.minimum_investable_unit || amount <= 0 {
        return orders;
    }
    proof {
        lemma_best_offer(snapshot.loan_offers@, *c);
    }
    match select_best(&snapshot.loan_offers, c) {
        None => {},
        Some(i) => {
            proof {
                let b = best_offer(snapshot.loan_offers@, *c)->Some_0;
                lemma_best_unique(snapshot.loan_offers@, *c, i as int, b);
            }
            orders.push(Order { target_id: snapshot.loan_offers[i].id, amount });
        },
    }
    proof {
        assert(orders@ =~= planned_orders(cash, snapshot.loan_offers@, *c));
    }
    orders
}

/// A selection pass yields at most one order, and when it yields one, the
/// order goes to a qualifying offer whose rate no qualifying offer exceeds.
pub proof fn lemma_one_order_at_the_top_rate(cash: i64, offers: Seq<LoanOffer>, c: Criteria)
    ensures
        planned_orders(cash, offers, c).len() <= 1,
        planned_orders(cash, offers, c).len() == 1 ==> exists|i: int|
            {
                &&& 0 <= i < offers.len()
                &&& qualifies(offers[i], c)
                &&& offers[i].id == planned_orders(cash, offers, c)[0].target_id
                &&& forall|j: int| 0 <= j < offers.len() && qualifies(offers[j], c)
                    ==> offers[j].rate <= offers[i].rate
            },
{
    lemma_best_offer(offers, c);
}

/// An offer whose rate equals the minimum rate is never the one picked: the
/// rate has to beat the minimum strictly.
pub proof fn lemma_minimum_rate_excluded(cash: i64, offers: Seq<LoanOffer>, c: Criteria, i: int)
    requires
        0 <= i < offers.len(),
        offers[i].rate == c.min_interest_rate,
    ensures
        !qualifies(offers[i], c),
        best_offer(offers, c) != Some(i),
{
    lemma_best_offer(offers, c);
}

/// With cash below the minimum investable unit, no order comes out, whatever
/// the offers.
pub proof fn lemma_no_orders_below_minimum(cash: i64, offers: Seq<LoanOffer>, c: Criteria)
    requires
        cash < c.minimum_investable_unit,
    ensures
        planned_orders(cash, offers, c).len() == 0,
{
}

/// The best loan to fund: the one offer, if any passes the term and rate
/// thresholds, with the strictly highest rate, the first of equal best
/// rates winning.
pub fn filter_desirable_loans(loans: Vec<LoanOffer>, max_term: i32, min_interest_rate: i64) -> (r: Vec<LoanOffer>)
    ensures
        ({
            let c = Criteria {
                max_term,
                min_interest_rate,
                minimum_investable_unit: 0,
                investment_increment: 0,
            };
            &&& r@.len() <= 1
            &&& r@.len() == 0 <==> !any_qualifies(loans@, c)
            &&& r@.len() == 1 ==> exists|i: int| is_best(loans@, c, i) && r@[0] == loans@[i]
        }),
{
    let c = Criteria { max_term, min_interest_rate, minimum_investable_unit: 0, investment_increment: 0 };
    let mut out: Vec<LoanOffer> = Vec::new();
    match select_best(&loans, &c) {
        None => {},
        Some(i) => {
            out.push(loans[i]);
        },
    }
    out
}

} // verus!
