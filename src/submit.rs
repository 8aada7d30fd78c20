use vstd::prelude::*;
use crate::session::{is_success, rotated, status_is_success, Cookie, Session};

verus! {

/// What one submitted order came to.
#[derive(Clone, Debug, PartialEq, Eq)]
pub enum OrderOutcome {
    /// The marketplace took the order.
    Accepted,
    /// The marketplace answered with a failure status; its body says why.
    Rejected(String),
    /// No usable answer came back: connection, timeout or decoding failure.
    TransportError(String),
}

/// A response as the transport delivered it.
#[derive(Clone, Debug, PartialEq, Eq)]
pub struct Reply {
    pub status: u16,
    pub cookies: Vec<Cookie>,
    pub body: String,
}

/// Classifies the answer to one investment request: a success status is
/// `Accepted`, any other status is `Rejected` with the body, and a transport
/// failure is `TransportError` with its detail.
pub fn order_outcome(answer: Result<(u16, String), String>) -> (r: OrderOutcome)
    ensures
        answer matches Err(d) ==> r == OrderOutcome::TransportError(d),
        answer matches Ok((status, body)) ==> (is_success(status) ==> r == OrderOutcome::Accepted),
        answer matches Ok((status, body)) ==> (!is_success(status) ==> r == OrderOutcome::Rejected(body)),
{
    match answer {
        Err(detail) => OrderOutcome::TransportError(detail),
        Ok((status, body)) => {
            if status_is_success(status) {
                OrderOutcome::Accepted
            } else {
                OrderOutcome::Rejected(body)
            }
        },
    }
}

/// Classifies the answer to one investment request and takes in the token
/// that it carries: a success status is `Accepted`, any other status is
/// `Rejected` with the body, and a transport failure is `TransportError`
/// with its detail. Nothing is retried.
pub fn submission_outcome(session: &mut Session, answer: Result<Reply, String>) -> (r: OrderOutcome)
    ensures
        final(session)@.phase == old(session)@.phase,
        answer matches Err(d) ==> r == OrderOutcome::TransportError(d) && final(session)@ == old(session)@,
        answer matches Ok(reply) ==> final(session)@.token == rotated(old(session)@.token, reply.cookies@),
        answer matches Ok(reply) ==> (is_success(reply.status) ==> r == OrderOutcome::Accepted),
        answer matches Ok(reply) ==> (!is_success(reply.status) ==> r == OrderOutcome::Rejected(reply.body)),
{
    match answer {
        Err(detail) => order_outcome(Err(detail)),
        Ok(reply) => {
            session.rotate(&reply.cookies);
            order_outcome(Ok((reply.status, reply.body)))
        },
    }
}

/// What the control service answers to a `/loans` trigger: `200` with
/// "Loan accepted", or `500` with the failure folded into the text.
pub fn loan_response(outcome: &OrderOutcome) -> (r: (u16, String))
    ensures
        *outcome == OrderOutcome::Accepted ==> r.0 == 200 && r.1@ == "Loan accepted"@,
        outcome matches OrderOutcome::Rejected(b)
            ==> r.0 == 500 && r.1@ == "Internal server error: Loan failed: "@ + b@,
        outcome matches OrderOutcome::TransportError(d)
            ==> r.0 == 500 && r.1@ == "Internal server error: "@ + d@,
{
    match outcome {
        OrderOutcome::Accepted => (200, String::from_str("Loan accepted")),
        OrderOutcome::Rejected(body) => (
            500,
            String::from_str("Internal server error: Loan failed: ").concat(body.as_str()),
        ),
        OrderOutcome::TransportError(detail) => (
            500,
            String::from_str("Internal server error: ").concat(detail.as_str()),
        ),
    }
}

} // verus!
