use vstd::prelude::*;
use crate::model::{LoanOffer, PortfolioEntry, SecondaryOffer, StateSnapshot};
use crate::session::{is_success, rotated, status_is_success, Cookie, Session};

verus! {

/// The queries of one refresh, in the order in which they are made.
#[derive(Clone, Copy, Debug, PartialEq, Eq, Structural)]
pub enum Query {
    Balance,
    PrimaryMarket,
    SecondaryMarket,
    Portfolio,
}

/// The decoded body of the answer to one query.
#[derive(Clone, Debug, PartialEq, Eq)]
pub enum Payload {
    /// The cash balance in cents.
    Balance(i64),
    PrimaryMarket(Vec<LoanOffer>),
    SecondaryMarket(Vec<SecondaryOffer>),
    Portfolio(Vec<PortfolioEntry>),
}

/// The answer to one query: its status, the cookies it set, and its body
/// when the body could be decoded.
#[derive(Clone, Debug, PartialEq, Eq)]
pub struct Answer {
    pub status: u16,
    pub cookies: Vec<Cookie>,
    pub payload: Option<Payload>,
}

/// Why a refresh stopped.
#[derive(Clone, Copy, Debug, PartialEq, Eq, Structural)]
pub enum RefreshError {
    /// The query was answered with a failure status.
    Status(Query, u16),
    /// The answer to the query had no body of the expected shape.
    Malformed(Query),
}

pub ghost struct RefreshView {
    pub next: Option<Query>,
    pub cash: i64,
    pub loans: Seq<LoanOffer>,
    pub secondary: Seq<SecondaryOffer>,
    pub portfolio: Seq<PortfolioEntry>,
}

/// A refresh under way: which query comes next, and what the answers so far
/// have brought.
#[derive(Debug)]
pub struct Refresh {
    next: Option<Query>,
    cash: i64,
    loans: Vec<LoanOffer>,
    secondary: Vec<SecondaryOffer>,
    portfolio: Vec<PortfolioEntry>,
}

impl View for Refresh {
    type V = RefreshView;

    closed spec fn view(&self) -> RefreshView {
        RefreshView {
            next: self.next,
            cash: self.cash,
            loans: self.loans@,
            secondary: self.secondary@,
            portfolio: self.portfolio@,
        }
    }
}

pub open spec fn start() -> RefreshView {
    RefreshView {
        next: Some(Query::Balance),
        cash: 0,
        loans: Seq::empty(),
        secondary: Seq::empty(),
        portfolio: Seq::empty(),
    }
}

/// Where a refresh goes on an answer with `status` and `payload`, from a
/// state that still waits for a query. Cookies play no part.
pub open spec fn step(v: RefreshView, status: u16, payload: Option<Payload>) -> Result<RefreshView, RefreshError> {
    let q = v.next->Some_0;
    if !is_success(status) {
        Err(RefreshError::Status(q, status))
    } else {
        match (q, payload) {
            (Query::Balance, Some(Payload::Balance(c))) => Ok(
                RefreshView { next: Some(Query::PrimaryMarket), cash: c, ..v },
            ),
            (Query::PrimaryMarket, Some(Payload::PrimaryMarket(l))) => Ok(
                RefreshView { next: Some(Query::SecondaryMarket), loans: l@, ..v },
            ),
            (Query::SecondaryMarket, Some(Payload::SecondaryMarket(s))) => Ok(
                RefreshView { next: Some(Query::Portfolio), secondary: s@, ..v },
            ),
            (Query::Portfolio, Some(Payload::Portfolio(p))) => Ok(
                RefreshView { next: None, portfolio: p@, ..v },
            ),
            _ => Err(RefreshError::Malformed(q)),
        }
    }
}

/// The outcome of feeding a run of answers to a refresh in state `v`: the
/// first error, or the state after the last answer.
pub open spec fn run(v: RefreshView, answers: Seq<Answer>) -> Result<RefreshView, RefreshError>
    decreases answers.len(),
{
    if answers.len() == 0 {
        Ok(v)
    } else if v.next is None {
        Ok(v)
    } else {
        match step(v, answers[0].status, answers[0].payload) {
            Err(e) => Err(e),
            Ok(w) => run(w, answers.drop_first()),
        }
    }
}

/// Two refreshes whose answers agree in status and body come to the same
/// result, whatever cookies, and so whatever tokens, those answers set.
pub proof fn lemma_refresh_repeatable(v: RefreshView, a: Seq<Answer>, b: Seq<Answer>)
    requires
        a.len() == b.len(),
        forall|i: int| 0 <= i < a.len() ==> (#[trigger] a[i]).status == b[i].status
            && a[i].payload == b[i].payload,
    ensures
        run(v, a) == run(v, b),
    decreases a.len(),
{
    if a.len() > 0 && v.next is Some {
        assert(a[0].status == b[0].status && a[0].payload == b[0].payload);
        match step(v, a[0].status, a[0].payload) {
            Err(e) => {},
            Ok(w) => {
                assert forall|i: int| 0 <= i < a.len() - 1 implies (#[trigger] a.drop_first()[i]).status
                    == b.drop_first()[i].status && a.drop_first()[i].payload == b.drop_first()[i].payload by {
                    assert(a.drop_first()[i] == a[i + 1]);
                    assert(b.drop_first()[i] == b[i + 1]);
                }
                lemma_refresh_repeatable(w, a.drop_first(), b.drop_first());
            },
        }
    }
}

impl Refresh {
    pub fn new() -> (r: Refresh)
        ensures
            r@ == start(),
    {
        let r = Refresh {
            next: Some(Query::Balance),
            cash: 0,
            loans: Vec::new(),
            secondary: Vec::new(),
            portfolio: Vec::new(),
        };
        proof {
            assert(r@ =~= start());
        }
        r
    }

    /// The query to make next, or `None` once all four are answered.
    pub fn next_query(&self) -> (r: Option<Query>)
        ensures
            r == self@.next,
    {
        self.next
    }

    /// Takes in the answer to the pending query. Any token that the answer
    /// carries replaces the session's token before anything else, so that
    /// the next query goes out with the newest one.
    pub fn accept(&mut self, session: &mut Session, answer: Answer) -> (r: Result<(), RefreshError>)
        requires
            old(self)@.next is Some,
        ensures
            final(session)@.phase == old(session)@.phase,
            final(session)@.token == rotated(old(session)@.token, answer.cookies@),
            step(old(self)@, answer.status, answer.payload) matches Ok(w) ==> r is Ok && final(self)@ == w,
            step(old(self)@, answer.status, answer.payload) matches Err(e) ==> r == Err::<(), RefreshError>(e)
                && final(self)@ == old(self)@,
    {
        session.rotate(&answer.cookies);
        let q = match self.next {
            Some(q) => q,
            None => Query::Balance,
        };
        if !status_is_success(answer.status) {
            return Err(RefreshError::Status(q, answer.status));
        }
        match (q, answer.payload) {
            (Query::Balance, Some(Payload::Balance(c))) => {
                self.cash = c;
                self.next = Some(Query::PrimaryMarket);
                Ok(())
            },
            (Query::PrimaryMarket, Some(Payload::PrimaryMarket(l))) => {
                self.loans = l;
                self.next = Some(Query::SecondaryMarket);
                Ok(())
            },
            (Query::SecondaryMarket, Some(Payload::SecondaryMarket(s))) => {
                self.secondary = s;
                self.next = Some(Query::Portfolio);
                Ok(())
            },
            (Query::Portfolio, Some(Payload::Portfolio(p))) => {
                self.portfolio = p;
                self.next = None;
                Ok(())
            },
            _ => Err(RefreshError::Malformed(q)),
        }
    }

    /// The snapshot, once all four queries are answered.
    pub fn finish(self) -> (r: Option<StateSnapshot>)
        ensures
            self@.next is Some ==> r is None,
            self@.next is None ==> (r matches Some(s) && s.cash_balance == self@.cash
                && s.loan_offers@ == self@.loans && s.secondary_offers@ == self@.secondary
                && s.portfolio@ == self@.portfolio),
    {
        match self.next {
            Some(_) => None,
            None => Some(StateSnapshot {
                cash_balance: self.cash,
                loan_offers: self.loans,
                secondary_offers: self.secondary,
                portfolio: self.portfolio,
            }),
        }
    }
}

} // verus!
