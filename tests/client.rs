use lendbot::client::Client;
use lendbot::session::Phase;

#[test]
fn new_client_starts_unauthenticated() {
    let client = Client::new().unwrap();
    assert_eq!(client.session.phase(), Phase::Unauthenticated);
    assert_eq!(client.session.token(), "");
}
