use lendbot::model::{LoanOffer, PortfolioEntry, SecondaryOffer};
use lendbot::refresh::{Answer, Payload, Query, Refresh, RefreshError};
use lendbot::selection::select_orders;
use lendbot::model::{Criteria, Order};
use lendbot::session::{Cookie, Session};

fn token(value: &str) -> Vec<Cookie> {
    vec![Cookie { name: "XSRF-TOKEN".to_string(), value: value.to_string() }]
}

fn authenticated() -> Session {
    let mut s = Session::new();
    s.record_login(200).unwrap();
    s.record_two_factor(200).unwrap();
    s.record_profile(200, &token("t0")).unwrap();
    s
}

fn answers(tag: &str) -> Vec<Answer> {
    let loan = LoanOffer { id: 11, rate: 1_150, term_days: 45, amount_available: 5_000, available: true };
    let resale = SecondaryOffer { id: 21, loan_id: 3, rate: 1_000, term_days: 60, amount_available: 800, discount: -150 };
    let held = PortfolioEntry {
        investment_id: 31,
        loan_id: 4,
        rate: 1_200,
        principal_invested: 1_000,
        principal_outstanding: 700,
        interest_received: 35,
        interest_pending: 10,
        closed: false,
    };
    vec![
        Answer { status: 200, cookies: vec![], payload: Some(Payload::Balance(2_500)) },
        Answer { status: 200, cookies: token(&format!("{tag}-1")), payload: Some(Payload::PrimaryMarket(vec![loan])) },
        Answer { status: 200, cookies: token(&format!("{tag}-2")), payload: Some(Payload::SecondaryMarket(vec![resale])) },
        Answer { status: 200, cookies: vec![], payload: Some(Payload::Portfolio(vec![held])) },
    ]
}

fn run(session: &mut Session, answers: Vec<Answer>) -> Result<Refresh, RefreshError> {
    let mut refresh = Refresh::new();
    for answer in answers {
        refresh.accept(session, answer)?;
    }
    Ok(refresh)
}

#[test]
fn refresh_runs_the_four_queries_in_order() {
    let mut session = authenticated();
    let mut refresh = Refresh::new();
    let mut order = vec![];
    for answer in answers("a") {
        order.push(refresh.next_query().unwrap());
        refresh.accept(&mut session, answer).unwrap();
    }
    assert_eq!(order, vec![Query::Balance, Query::PrimaryMarket, Query::SecondaryMarket, Query::Portfolio]);
    assert_eq!(refresh.next_query(), None);
    assert_eq!(session.token(), "a-2");
    let snap = refresh.finish().unwrap();
    assert_eq!(snap.cash_balance, 2_500);
    assert_eq!(snap.loan_offers.len(), 1);
    assert_eq!(snap.secondary_offers[0].discount, -150);
    assert_eq!(snap.portfolio[0].principal_outstanding, 700);
}

#[test]
fn refreshing_twice_gives_equal_snapshots() {
    let mut session = authenticated();
    let first = run(&mut session, answers("a")).unwrap().finish().unwrap();
    let second = run(&mut session, answers("b")).unwrap().finish().unwrap();
    assert_eq!(first, second);
    assert_eq!(session.token(), "b-2");
}

#[test]
fn refresh_stops_on_failure_status() {
    let mut session = authenticated();
    let mut refresh = Refresh::new();
    let mut failing = answers("a");
    failing[0].status = 503;
    assert_eq!(refresh.accept(&mut session, failing.remove(0)), Err(RefreshError::Status(Query::Balance, 503)));
    assert_eq!(refresh.next_query(), Some(Query::Balance));
    assert!(refresh.finish().is_none());
}

#[test]
fn refresh_refuses_answer_of_another_shape() {
    let mut session = authenticated();
    let mut refresh = Refresh::new();
    let wrong = Answer { status: 200, cookies: token("x"), payload: Some(Payload::Portfolio(vec![])) };
    assert_eq!(refresh.accept(&mut session, wrong), Err(RefreshError::Malformed(Query::Balance)));
    assert_eq!(session.token(), "x");
    let empty = Answer { status: 200, cookies: vec![], payload: None };
    assert_eq!(refresh.accept(&mut session, empty), Err(RefreshError::Malformed(Query::Balance)));
}

#[test]
fn low_balance_refresh_completes_but_selects_nothing() {
    let mut session = authenticated();
    let mut low = answers("a");
    low[0].payload = Some(Payload::Balance(300));
    let snap = run(&mut session, low).unwrap().finish().unwrap();
    assert_eq!(snap.cash_balance, 300);
    let c = Criteria { max_term: 90, min_interest_rate: 700, minimum_investable_unit: 500, investment_increment: 1_000 };
    assert_eq!(select_orders(&snap, &c), Vec::<Order>::new());
}
