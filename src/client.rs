use vstd::prelude::*;
use crate::session::{Phase, Session};
use reqwest::Client as HttpClient;

verus! {

#[verifier::external_type_specification]
#[verifier::external_body]
pub struct ExHttpClient(HttpClient);

#[verifier::external_type_specification]
#[verifier::external_body]
pub struct ExHttpError(reqwest::Error);

/// Relies on reqwest::ClientBuilder::build, configured with a cookie store
/// and JSON content headers. It fails when the TLS backend or the resolver
/// cannot be set up; nothing is promised of the client it returns.
#[verifier::external_body]
fn build_http_client() -> (r: Result<HttpClient, reqwest::Error>) {
    let mut headers = reqwest::header::HeaderMap::new();
    let json = reqwest::header::HeaderValue::from_static("application/json");
    headers.insert(reqwest::header::CONTENT_TYPE, json.clone());
    headers.insert(reqwest::header::ACCEPT, json);
    HttpClient::builder().cookie_store(true).default_headers(headers).build()
}

/// Why no client could be made.
#[derive(Debug)]
pub enum ClientError {
    /// The HTTP transport could not be set up.
    Transport(reqwest::Error),
}

/// A transport that keeps cookies across calls, and the session that runs
/// over it.
#[derive(Debug)]
pub struct Client {
    pub http: HttpClient,
    pub session: Session,
}

impl Client {
    /// A client with an empty cookie jar and a session that has not yet
    /// authenticated.
    pub fn new() -> (r: Result<Client, ClientError>)
        ensures
            r matches Ok(c) ==> c.session@.phase == Phase::Unauthenticated
                && c.session@.token == Seq::<char>::empty(),
    {
        match build_http_client() {
            Ok(http) => Ok(Client { http, session: Session::new() }),
            Err(e) => Err(ClientError::Transport(e)),
        }
    }
}

} // verus!
