use vstd::prelude::*;

verus! {

/// The cookie in which the marketplace hands out its anti-forgery token.
pub const ANTI_FORGERY_COOKIE: &'static str = "XSRF-TOKEN";

/// A cookie that a response sets: its name and value.
#[derive(Clone, Debug, PartialEq, Eq)]
pub struct Cookie {
    pub name: String,
    pub value: String,
}

pub open spec fn is_success(status: u16) -> bool {
    200 <= status <= 299
}

pub fn status_is_success(status: u16) -> (r: bool)
    ensures
        r == is_success(status),
{
    200 <= status && status <= 299
}

pub open spec fn is_token_cookie(c: Cookie) -> bool {
    c.name@ == ANTI_FORGERY_COOKIE@
}

/// The token that a response carries: the value of its last anti-forgery
/// cookie, if it has one.
pub open spec fn carried_token(cookies: Seq<Cookie>) -> Option<Seq<char>>
    decreases cookies.len(),
{
    if cookies.len() == 0 {
        None
    } else if is_token_cookie(cookies.last()) {
        Some(cookies.last().value@)
    } else {
        carried_token(cookies.drop_last())
    }
}

/// The token held after a response: the one it carries, else the old one.
pub open spec fn rotated(token: Seq<char>, cookies: Seq<Cookie>) -> Seq<char> {
    match carried_token(cookies) {
        Some(t) => t,
        None => token,
    }
}

/// Finds the anti-forgery token among the cookies of a response; where
/// several are set, the last one counts.
pub fn fresh_token(cookies: &Vec<Cookie>) -> (r: Option<String>)
    ensures
        r matches Some(t) ==> carried_token(cookies@) == Some(t@),
        r is None ==> carried_token(cookies@) is None,
{
    let name = String::from_str(ANTI_FORGERY_COOKIE);
    let mut k: usize = cookies.len();
    proof {
        assert(cookies@.take(k as int) =~= cookies@);
    }
    while k > 0
        invariant
            k <= cookies@.len(),
            name@ == ANTI_FORGERY_COOKIE@,
            carried_token(cookies@) == carried_token(cookies@.take(k as int)),
        decreases k,
    {
        let c = &cookies[k - 1];
        proof {
            assert(cookies@.take(k as int).drop_last() =~= cookies@.take(k - 1));
            assert(cookies@.take(k as int).last() == cookies@[k - 1]);
        }
        if c.name == name {
            return Some(c.value.clone());
        }
        k = k - 1;
    }
    proof {
        assert(cookies@.take(0).len() == 0);
    }
    None
}

/// Where the authentication handshake stands.
#[derive(Clone, Copy, Debug, PartialEq, Eq, Structural)]
pub enum Phase {
    Unauthenticated,
    AwaitingTwoFactor,
    AwaitingToken,
    Authenticated,
}

/// Why the handshake failed.
#[derive(Clone, Copy, Debug, PartialEq, Eq, Structural)]
pub enum AuthError {
    /// The login endpoint rejected the email and password.
    Credentials,
    /// The two-factor confirmation was rejected.
    TwoFactor,
    /// The profile fetch that hands out the first token failed with this status.
    ProfileUnavailable(u16),
    /// The profile response set no anti-forgery cookie.
    TokenMissing,
    /// The account has no second factor switched on.
    TwoFactorInactive,
    /// A success answer whose body could not be read.
    Malformed,
}

/// Login with a bearer-token marketplace: the status of the login answer,
/// and its body when it could be decoded, as whether a second factor is
/// active and the token that the second factor is to be confirmed with.
pub fn login_outcome(status: u16, reply: Option<(bool, String)>) -> (r: Result<String, AuthError>)
    ensures
        !is_success(status) ==> r == Err::<String, AuthError>(AuthError::Credentials),
        is_success(status) ==> match reply {
            None => r == Err::<String, AuthError>(AuthError::Malformed),
            Some((true, t)) => r == Ok::<String, AuthError>(t),
            Some((false, _)) => r == Err::<String, AuthError>(AuthError::TwoFactorInactive),
        },
{
    if !status_is_success(status) {
        return Err(AuthError::Credentials);
    }
    match reply {
        None => Err(AuthError::Malformed),
        Some((active, token)) => {
            if active {
                Ok(token)
            } else {
                Err(AuthError::TwoFactorInactive)
            }
        },
    }
}

/// Second factor with a bearer-token marketplace: the status of the
/// confirmation, and the access token of its body when it could be decoded.
pub fn two_factor_outcome(status: u16, access_token: Option<String>) -> (r: Result<String, AuthError>)
    ensures
        !is_success(status) ==> r == Err::<String, AuthError>(AuthError::TwoFactor),
        is_success(status) ==> match access_token {
            None => r == Err::<String, AuthError>(AuthError::Malformed),
            Some(t) => r == Ok::<String, AuthError>(t),
        },
{
    if !status_is_success(status) {
        return Err(AuthError::TwoFactor);
    }
    match access_token {
        None => Err(AuthError::Malformed),
        Some(t) => Ok(t),
    }
}

pub ghost struct SessionView {
    pub phase: Phase,
    pub token: Seq<char>,
}

/// One authenticated conversation with a marketplace: how far the handshake
/// has come, and the anti-forgery token that every state-changing request
/// must carry. The token is empty until the first one is harvested.
#[derive(Debug)]
pub struct Session {
    phase: Phase,
    token: String,
}

impl View for Session {
    type V = SessionView;

    closed spec fn view(&self) -> SessionView {
        SessionView { phase: self.phase, token: self.token@ }
    }
}

impl Session {
    pub fn new() -> (r: Session)
        ensures
            r@.phase == Phase::Unauthenticated,
            r@.token == Seq::<char>::empty(),
    {
        Session { phase: Phase::Unauthenticated, token: String::new() }
    }

    pub fn phase(&self) -> (r: Phase)
        ensures
            r == self@.phase,
    {
        self.phase
    }

    pub fn token(&self) -> (r: &str)
        ensures
            r@ == self@.token,
    {
        self.token.as_str()
    }

    /// Step one: the login answered with `status`.
    pub fn record_login(&mut self, status: u16) -> (r: Result<(), AuthError>)
        requires
            old(self)@.phase == Phase::Unauthenticated,
        ensures
            is_success(status) ==> r is Ok && final(self)@ == (SessionView {
                phase: Phase::AwaitingTwoFactor,
                token: old(self)@.token,
            }),
            !is_success(status) ==> r == Err::<(), AuthError>(AuthError::Credentials)
                && final(self)@ == old(self)@,
    {
        if status_is_success(status) {
            self.phase = Phase::AwaitingTwoFactor;
            Ok(())
        } else {
            Err(AuthError::Credentials)
        }
    }

    /// Step two: the one-time password was confirmed with `status`.
    pub fn record_two_factor(&mut self, status: u16) -> (r: Result<(), AuthError>)
        requires
            old(self)@.phase == Phase::AwaitingTwoFactor,
        ensures
            is_success(status) ==> r is Ok && final(self)@ == (SessionView {
                phase: Phase::AwaitingToken,
                token: old(self)@.token,
            }),
            !is_success(status) ==> r == Err::<(), AuthError>(AuthError::TwoFactor)
                && final(self)@ == old(self)@,
    {
        if status_is_success(status) {
            self.phase = Phase::AwaitingToken;
            Ok(())
        } else {
            Err(AuthError::TwoFactor)
        }
    }

    /// Step three: the profile fetch answered with `status`, setting
    /// `cookies`; its anti-forgery cookie gives the first token, as any later
    /// response's cookie would rotate it in.
    pub fn record_profile(&mut self, status: u16, cookies: &Vec<Cookie>) -> (r: Result<(), AuthError>)
        requires
            old(self)@.phase == Phase::AwaitingToken,
        ensures
            !is_success(status) ==> r == Err::<(), AuthError>(AuthError::ProfileUnavailable(status))
                && final(self)@ == old(self)@,
            is_success(status) && carried_token(cookies@) is None
                ==> r == Err::<(), AuthError>(AuthError::TokenMissing) && final(self)@ == old(self)@,
            is_success(status) && carried_token(cookies@) is Some ==> r is Ok && final(self)@ == (SessionView {
                phase: Phase::Authenticated,
                token: carried_token(cookies@)->Some_0,
            }),
            r is Ok ==> final(self)@.token == rotated(old(self)@.token, cookies@),
    {
        if !status_is_success(status) {
            return Err(AuthError::ProfileUnavailable(status));
        }
        match fresh_token(cookies) {
            None => Err(AuthError::TokenMissing),
            Some(t) => {
                self.token = t;
                self.phase = Phase::Authenticated;
                Ok(())
            },
        }
    }

    /// Takes in the cookies of any response: a token that it carries
    /// replaces the stored one, whatever that was.
    pub fn rotate(&mut self, cookies: &Vec<Cookie>)
        ensures
            final(self)@.phase == old(self)@.phase,
            final(self)@.token == rotated(old(self)@.token, cookies@),
    {
        match fresh_token(cookies) {
            None => {},
            Some(t) => {
                self.token = t;
            },
        }
    }

    /// The header value that a state-changing request must carry: the
    /// current token, once there is one.
    pub fn anti_forgery_header(&self) -> (r: Option<String>)
        ensures
            self@.token.len() == 0 ==> r is None,
            self@.token.len() > 0 ==> (r matches Some(h) && h@ == self@.token),
    {
        if self.token.as_str().unicode_len() == 0 {
            None
        } else {
            Some(self.token.clone())
        }
    }
}

/// The token held after a run of responses, each given by its cookies.
pub open spec fn token_after(token: Seq<char>, replies: Seq<Seq<Cookie>>) -> Seq<char>
    decreases replies.len(),
{
    if replies.len() == 0 {
        token
    } else {
        rotated(token_after(token, replies.drop_last()), replies.last())
    }
}

/// After a run of responses, the stored token is the one carried by the last
/// response that carried any; a response without a token changes nothing.
pub proof fn lemma_latest_token_wins(token: Seq<char>, replies: Seq<Seq<Cookie>>, i: int)
    requires
        0 <= i < replies.len(),
        carried_token(replies[i]) is Some,
        forall|j: int| i < j < replies.len() ==> carried_token(#[trigger] replies[j]) is None,
    ensures
        token_after(token, replies) == carried_token(replies[i])->Some_0,
    decreases replies.len(),
{
    if i < replies.len() - 1 {
        let p = replies.drop_last();
        assert forall|j: int| i < j < p.len() implies carried_token(#[trigger] p[j]) is None by {
            assert(p[j] == replies[j]);
        }
        lemma_latest_token_wins(token, p, i);
    }
}

} // verus!
