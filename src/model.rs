use vstd::prelude::*;

verus! {

/// A primary-market loan open for funding.
///
/// `rate` is the interest rate in hundredths of a percent (`950` is 9.50 %),
/// `amount_available` is in cents.
#[derive(Clone, Copy, Debug, PartialEq, Eq, Structural)]
pub struct LoanOffer {
    pub id: u64,
    pub rate: i64,
    pub term_days: i32,
    pub amount_available: i64,
    pub available: bool,
}

/// A resale of an existing claim on the secondary market, priced at a
/// discount (negative) or premium (positive) to par, in hundredths of a
/// percent.
#[derive(Clone, Copy, Debug, PartialEq, Eq, Structural)]
pub struct SecondaryOffer {
    pub id: u64,
    pub loan_id: u64,
    pub rate: i64,
    pub term_days: i32,
    pub amount_available: i64,
    pub discount: i64,
}

/// An investment already held, as reported by the marketplace. Amounts in
/// cents, `rate` in hundredths of a percent.
#[derive(Clone, Copy, Debug, PartialEq, Eq, Structural)]
pub struct PortfolioEntry {
    pub investment_id: u64,
    pub loan_id: u64,
    pub rate: i64,
    pub principal_invested: i64,
    pub principal_outstanding: i64,
    pub interest_received: i64,
    pub interest_pending: i64,
    pub closed: bool,
}

/// One consistent-enough view of the account: cash in cents, the offers of
/// both markets and the current portfolio. Never changed after it is built.
#[derive(Clone, Debug, PartialEq, Eq)]
pub struct StateSnapshot {
    pub cash_balance: i64,
    pub loan_offers: Vec<LoanOffer>,
    pub secondary_offers: Vec<SecondaryOffer>,
    pub portfolio: Vec<PortfolioEntry>,
}

/// The investor's thresholds. `max_term` in days, `min_interest_rate` in
/// hundredths of a percent, the two amounts in cents.
#[derive(Clone, Copy, Debug, PartialEq, Eq, Structural)]
pub struct Criteria {
    pub max_term: i32,
    pub min_interest_rate: i64,
    pub minimum_investable_unit: i64,
    pub investment_increment: i64,
}

/// One funding instruction: put `amount` cents into the offer `target_id`.
#[derive(Clone, Copy, Debug, PartialEq, Eq, Structural)]
pub struct Order {
    pub target_id: u64,
    pub amount: i64,
}

} // verus!
