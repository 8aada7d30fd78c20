use lendbot::model::{Criteria, LoanOffer, Order, StateSnapshot};
use lendbot::selection::{filter_desirable_loans, select_best, select_orders};

fn offer(id: u64, rate: i64, term_days: i32) -> LoanOffer {
    LoanOffer { id, rate, term_days, amount_available: 100_000, available: true }
}

fn criteria(max_term: i32, min_interest_rate: i64) -> Criteria {
    Criteria {
        max_term,
        min_interest_rate,
        minimum_investable_unit: 500,
        investment_increment: 1_000,
    }
}

fn snapshot(cash_balance: i64, loan_offers: Vec<LoanOffer>) -> StateSnapshot {
    StateSnapshot { cash_balance, loan_offers, secondary_offers: vec![], portfolio: vec![] }
}

#[test]
fn cash_below_minimum_unit_gives_no_orders() {
    let snap = snapshot(300, vec![offer(1, 2_500, 10), offer(2, 3_000, 5)]);
    assert_eq!(select_orders(&snap, &criteria(90, 700)), vec![]);
}

#[test]
fn term_excludes_higher_rate() {
    let snap = snapshot(10_000, vec![offer(1, 800, 30), offer(2, 950, 400)]);
    let orders = select_orders(&snap, &criteria(90, 700));
    assert_eq!(orders, vec![Order { target_id: 1, amount: 1_000 }]);
}

#[test]
fn empty_offer_list_gives_no_orders() {
    let snap = snapshot(10_000, vec![]);
    assert_eq!(select_orders(&snap, &criteria(90, 700)), vec![]);
}

#[test]
fn rate_equal_to_minimum_is_excluded() {
    let snap = snapshot(10_000, vec![offer(1, 700, 30), offer(2, 700, 10)]);
    assert_eq!(select_orders(&snap, &criteria(90, 700)), vec![]);
    let snap = snapshot(10_000, vec![offer(1, 700, 30), offer(2, 701, 10)]);
    assert_eq!(select_orders(&snap, &criteria(90, 700)), vec![Order { target_id: 2, amount: 1_000 }]);
}

#[test]
fn highest_rate_wins_and_ties_keep_first_seen() {
    let offers = vec![offer(1, 800, 30), offer(2, 1_200, 30), offer(3, 1_200, 30), offer(4, 900, 30)];
    assert_eq!(select_best(&offers, &criteria(90, 700)), Some(1));
    let snap = snapshot(10_000, offers);
    assert_eq!(select_orders(&snap, &criteria(90, 700)), vec![Order { target_id: 2, amount: 1_000 }]);
}

#[test]
fn unavailable_offer_is_skipped() {
    let mut closed = offer(1, 2_000, 30);
    closed.available = false;
    let offers = vec![closed, offer(2, 900, 30)];
    assert_eq!(select_best(&offers, &criteria(90, 700)), Some(1));
}

#[test]
fn ticket_never_exceeds_cash() {
    let snap = snapshot(600, vec![offer(7, 900, 30)]);
    assert_eq!(select_orders(&snap, &criteria(90, 700)), vec![Order { target_id: 7, amount: 600 }]);
}

#[test]
fn cash_at_minimum_unit_invests() {
    let snap = snapshot(500, vec![offer(7, 900, 30)]);
    assert_eq!(select_orders(&snap, &criteria(90, 700)), vec![Order { target_id: 7, amount: 500 }]);
}

#[test]
fn desirable_loan_is_the_single_best() {
    let loans = vec![
        offer(1, 900, 30),
        offer(2, 1_100, 30),
        offer(3, 900, 10),
        offer(4, 1_500, 200),
        offer(5, 700, 10),
        offer(6, 1_100, 60),
    ];
    let picked = filter_desirable_loans(loans, 90, 700);
    assert_eq!(picked.len(), 1);
    assert_eq!(picked[0].id, 2);
}

#[test]
fn desirable_loans_with_distinct_rates_give_one() {
    let picked = filter_desirable_loans(vec![offer(1, 800, 30), offer(2, 950, 30)], 90, 700);
    assert_eq!(picked, vec![offer(2, 950, 30)]);
}

#[test]
fn desirable_loans_of_nothing_is_nothing() {
    assert!(filter_desirable_loans(vec![], 90, 700).is_empty());
    assert!(filter_desirable_loans(vec![offer(1, 700, 30), offer(2, 1_000, 91)], 90, 700).is_empty());
}

#[test]
fn non_positive_ticket_gives_no_order() {
    let snap = snapshot(10_000, vec![offer(1, 900, 30)]);
    let mut c = criteria(90, 700);
    c.investment_increment = 0;
    assert_eq!(select_orders(&snap, &c), vec![]);
    let snap = snapshot(-50, vec![offer(1, 900, 30)]);
    let mut c = criteria(90, 700);
    c.minimum_investable_unit = -100;
    assert_eq!(select_orders(&snap, &c), vec![]);
}
