use lendbot::session::{Cookie, Session};
use lendbot::submit::{loan_response, order_outcome, submission_outcome, OrderOutcome, Reply};

fn authenticated(token: &str) -> Session {
    let mut s = Session::new();
    s.record_login(200).unwrap();
    s.record_two_factor(200).unwrap();
    s.record_profile(200, &vec![Cookie { name: "XSRF-TOKEN".to_string(), value: token.to_string() }])
        .unwrap();
    s
}

#[test]
fn payment_required_is_rejected_with_body() {
    let mut s = authenticated("t1");
    let reply = Reply { status: 402, cookies: vec![], body: "insufficient funds".to_string() };
    let outcome = submission_outcome(&mut s, Ok(reply));
    assert_eq!(outcome, OrderOutcome::Rejected("insufficient funds".to_string()));
    assert_eq!(s.token(), "t1");
}

#[test]
fn success_is_accepted_and_rotates_token() {
    let mut s = authenticated("t1");
    let cookies = vec![Cookie { name: "XSRF-TOKEN".to_string(), value: "t2".to_string() }];
    let reply = Reply { status: 201, cookies, body: String::new() };
    assert_eq!(submission_outcome(&mut s, Ok(reply)), OrderOutcome::Accepted);
    assert_eq!(s.token(), "t2");
}

#[test]
fn transport_failure_keeps_session() {
    let mut s = authenticated("t1");
    let outcome = submission_outcome(&mut s, Err("connection reset".to_string()));
    assert_eq!(outcome, OrderOutcome::TransportError("connection reset".to_string()));
    assert_eq!(s.token(), "t1");
}

#[test]
fn loan_responses() {
    assert_eq!(loan_response(&OrderOutcome::Accepted), (200, "Loan accepted".to_string()));
    assert_eq!(
        loan_response(&OrderOutcome::Rejected("insufficient funds".to_string())),
        (500, "Internal server error: Loan failed: insufficient funds".to_string())
    );
    assert_eq!(
        loan_response(&OrderOutcome::TransportError("timed out".to_string())),
        (500, "Internal server error: timed out".to_string())
    );
}

#[test]
fn order_outcomes() {
    assert_eq!(order_outcome(Ok((200, "ok".to_string()))), OrderOutcome::Accepted);
    assert_eq!(
        order_outcome(Ok((402, "insufficient funds".to_string()))),
        OrderOutcome::Rejected("insufficient funds".to_string())
    );
    assert_eq!(order_outcome(Err("timed out".to_string())), OrderOutcome::TransportError("timed out".to_string()));
}
