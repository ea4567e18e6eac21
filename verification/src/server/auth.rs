//! Logging in: challenges, authorisation by the user at the machine, cookies, one-time
//! tokens and the limit on failed attempts.
use super::base64;
use super::bytes::{bytes_agree, bytes_eq};
use super::config::{AuthorisedKeys, Bytes64, IpAddress};
use super::crypto;
use super::error::WebshooterError;
use super::id_table::IdTable;
use super::ipc::{self, IPCMessage};
use super::wt;
use crate::text::{self, CharClass};
use std::collections::HashMap;
use vstd::prelude::*;

verus! {

broadcast use vstd::std_specs::hash::group_hash_axioms;

/// The length of a challenge.
pub const CHALLENGE_SIZE: usize = 256;

/// The length of a cookie.
pub const COOKIE_SIZE: usize = 1024;

/// How long a cookie is good for, in nanoseconds: a day.
pub const COOKIE_TTL_NS: u64 = 86_400_000_000_000;

/// How long failed attempts are counted, in nanoseconds: a minute.
pub const RATE_LIMIT_WINDOW_NS: u64 = 60_000_000_000;

/// How many attempts may fail in that time where the configuration says nothing.
pub const DEFAULT_RATE_LIMIT: u32 = 10;

/// How long a login waits for its authorisation where the configuration says nothing, in
/// seconds.
pub const DEFAULT_AUTH_TIMEOUT_SECS: u64 = 30;

/// The time from `since` to `now`; none where `now` comes first.
pub open spec fn time_between(since: u64, now: u64) -> u64 {
    if now >= since {
        (now - since) as u64
    } else {
        0
    }
}

fn elapsed(since: u64, now: u64) -> (r: u64)
    ensures
        r == time_between(since, now),
{
    if now >= since {
        now - since
    } else {
        0
    }
}

// ----- sessions

/// How far a login is.
pub enum Session {
    /// A challenge was sent.
    Challenged(Vec<u8>),
    /// The challenge was met; the session goes by this cookie. Times are in nanoseconds.
    Approved { cookie: Vec<u8>, created_at: u64 },
}

/// The logins, by the keys of those who log in.
pub struct AuthSessions {
    pub table: IdTable<Session>,
}

/// Whether a session was sent this challenge.
pub open spec fn challenged_with(s: Session, challenge: Seq<u8>) -> bool {
    s matches Session::Challenged(c) && c@ == challenge
}

/// Whether a session was approved with this cookie at this time.
pub open spec fn approved_with(s: Session, cookie: Seq<u8>, at: u64) -> bool {
    s matches Session::Approved { cookie: c, created_at } && c@ == cookie && created_at == at
}

/// Whether the session of `id` is the one that a cookie's text names, and not too old.
pub open spec fn live_session(
    sessions: Map<Seq<u8>, Session>,
    id: Seq<u8>,
    token: Seq<char>,
    now: u64,
) -> bool {
    sessions.contains_key(id) && (sessions[id] matches Session::Approved { cookie, created_at }
        && time_between(created_at, now) <= COOKIE_TTL_NS && base64::base64(cookie@) == token)
}

/// What a login request holds.
pub enum LoginParams {
    IdOnly { id: Bytes64 },
    Signature { id: Bytes64, signature: Bytes64 },
}

impl LoginParams {
    /// Who logs in.
    pub open spec fn who(self) -> Seq<u8> {
        match self {
            LoginParams::IdOnly { id } => id@,
            LoginParams::Signature { id, signature } => id@,
        }
    }

    /// Who logs in.
    pub fn id(&self) -> (r: &Bytes64)
        ensures
            r@ == self.who(),
    {
        match self {
            LoginParams::IdOnly { id } => id,
            LoginParams::Signature { id, .. } => id,
        }
    }

    /// Who logs in.
    pub fn into_id(self) -> (r: Bytes64)
        ensures
            r@ == self.who(),
    {
        match self {
            LoginParams::IdOnly { id } => id,
            LoginParams::Signature { id, .. } => id,
        }
    }
}

/// Why a login fails at its challenge, if it does: there is no signature, no challenge was
/// sent, the key or the signature is malformed, or the signature does not hold.
pub open spec fn login_failure(sessions: Map<Seq<u8>, Session>, params: LoginParams) -> Option<
    WebshooterError,
> {
    match params {
        LoginParams::IdOnly { id } => Some(WebshooterError::InvalidLogin),
        LoginParams::Signature { id, signature } => if !sessions.contains_key(id@) || !(
        sessions[id@] is Challenged) {
            Some(WebshooterError::NotChallenged)
        } else if !crypto::public_key_form(id@) || !crypto::signature_form(signature@) {
            Some(WebshooterError::InvalidLogin)
        } else if !crypto::signature_holds(id@, sessions[id@]->Challenged_0@, signature@) {
            Some(WebshooterError::ChallengeFailed)
        } else {
            None
        },
    }
}

/// What a login waits for, if anything.
#[derive(Debug, Clone, Copy, PartialEq, Eq, Structural)]
pub enum LoginGate {
    /// The key is known: on to the challenge.
    Open,
    /// The key is unknown: the user at the machine has to let it in.
    NeedsAuthorisation,
}

/// What came of the wait for the authorisation of a login.
pub enum WaitOutcome {
    /// The user at the machine let it in.
    Granted,
    /// Nobody did, in the time that there was.
    TimedOut,
    /// The user cannot be heard, for this reason.
    Failed(String),
}

/// Why a login is refused.
pub enum LoginError {
    /// The request does not do.
    Refused(WebshooterError),
    /// Nobody authorised it in time.
    TimedOut,
    /// The user at the machine cannot be heard, for this reason.
    Failed(String),
}

/// Why a login is refused, if it is, while these keys are known: a key that is not known has to
/// be let in, and then the challenge has to be met.
pub open spec fn login_refusal(
    keys: Set<Seq<u8>>,
    sessions: Map<Seq<u8>, Session>,
    params: LoginParams,
    wait: WaitOutcome,
) -> Option<LoginError> {
    let failure = match login_failure(sessions, params) {
        Some(e) => Some(LoginError::Refused(e)),
        None => None,
    };
    if params is IdOnly || keys.contains(params.who()) {
        failure
    } else {
        match wait {
            WaitOutcome::Granted => failure,
            WaitOutcome::TimedOut => Some(LoginError::TimedOut),
            WaitOutcome::Failed(reason) => Some(LoginError::Failed(reason)),
        }
    }
}

/// Nobody gets in whose key is not known and whom the user at the machine did not let in.
pub proof fn strangers_stay_out(
    keys: Set<Seq<u8>>,
    sessions: Map<Seq<u8>, Session>,
    params: LoginParams,
    wait: WaitOutcome,
)
    requires
        !keys.contains(params.who()),
        wait !is Granted,
    ensures
        login_refusal(keys, sessions, params, wait) is Some,
{
}

/// Nobody gets in without a signature of the challenge that was sent last.
pub proof fn logins_meet_their_challenge(
    keys: Set<Seq<u8>>,
    sessions: Map<Seq<u8>, Session>,
    params: LoginParams,
    wait: WaitOutcome,
)
    requires
        login_refusal(keys, sessions, params, wait) is None,
    ensures
        params matches LoginParams::Signature { id, signature } && sessions.contains_key(id@) && (
        sessions[id@] matches Session::Challenged(challenge) && crypto::signature_holds(
            id@,
            challenge@,
            signature@,
        )),
{
}

/// A login is spent: it is refused when it comes again, since its challenge is gone.
pub proof fn logins_are_used_once(
    keys: Set<Seq<u8>>,
    sessions: Map<Seq<u8>, Session>,
    params: LoginParams,
    wait: WaitOutcome,
    cookie: Vec<u8>,
    now: u64,
)
    requires
        login_refusal(keys, sessions, params, wait) is None,
    ensures
        login_refusal(
            keys.insert(params.who()),
            sessions.insert(params.who(), Session::Approved { cookie, created_at: now }),
            params,
            wait,
        ) == Some(LoginError::Refused(WebshooterError::NotChallenged)),
{
}

/// Who sent a request.
pub struct Authenticated {
    pub id: Bytes64,
}

impl AuthSessions {
    pub open spec fn well_formed(self) -> bool {
        self.table.well_formed()
    }

    /// Nobody logs in.
    pub fn new() -> (s: AuthSessions)
        ensures
            s.well_formed(),
            s.table@ == Map::<Seq<u8>, Session>::empty(),
    {
        AuthSessions { table: IdTable::new() }
    }

    /// Notes that a challenge was sent.
    pub fn challenge(&mut self, id: Bytes64, challenge: Vec<u8>)
        requires
            old(self).well_formed(),
        ensures
            final(self).well_formed(),
            final(self).table@ == old(self).table@.insert(id@, Session::Challenged(challenge)),
    {
        self.table.insert(id.into_vec(), Session::Challenged(challenge));
    }

    /// A new challenge for `id`, in place of whatever session it had.
    pub fn get_challenge(&mut self, id: Bytes64) -> (r: Vec<u8>)
        requires
            old(self).well_formed(),
        ensures
            final(self).well_formed(),
            r@.len() == CHALLENGE_SIZE,
            final(self).table@.contains_key(id@),
            challenged_with(final(self).table@[id@], r@),
            final(self).table@.remove(id@) == old(self).table@.remove(id@),
            r@.len() == 256,
    {
        let r = crypto::random_bytes(CHALLENGE_SIZE);
        let copy = vstd::slice::slice_to_vec(r.as_slice());
        assert(copy@ =~= r@);
        self.challenge(id, copy);
        assert(self.table@.remove(id@) =~= old(self).table@.remove(id@));
        r
    }

    /// The keys that were sent a challenge and have not met it, each once.
    pub fn get_challenged_sessions(&self) -> (r: Vec<Vec<u8>>)
        requires
            self.well_formed(),
        ensures
            super::id_table::id_views(r@).no_duplicates(),
            forall|id: Seq<u8>| #[trigger]
                super::id_table::id_views(r@).contains(id) <==> self.table@.contains_key(id)
                    && self.table@[id] is Challenged,
    {
        let mut r: Vec<Vec<u8>> = Vec::new();
        let mut i: usize = 0;
        proof {
            self.table.entries_are_the_map();
        }
        while i < self.table.len()
            invariant
                self.well_formed(),
                i <= self.table.spec_len(),
                super::id_table::id_views(r@).no_duplicates(),
                forall|id: Seq<u8>| #[trigger]
                    super::id_table::id_views(r@).contains(id) <==> exists|j: int|
                        0 <= j < i && #[trigger] self.table.id_at(j) == id && self.table.value_at(j)
                            is Challenged,
                forall|a: int, b: int|
                    0 <= a < b < self.table.spec_len() ==> #[trigger] self.table.id_at(a)
                        != #[trigger] self.table.id_at(b),
            decreases self.table.spec_len() - i,
        {
            let ghost before = super::id_table::id_views(r@);
            let ghost id_here = self.table.id_at(i as int);
            if let Session::Challenged(_) = self.table.value(i) {
                let id = vstd::slice::slice_to_vec(self.table.id(i).as_slice());
                assert(id@ =~= id_here);
                r.push(id);
                proof {
                    let after = super::id_table::id_views(r@);
                    assert(after =~= before.push(id_here));
                    assert forall|x: int, y: int| 0 <= x < y < after.len() implies after[x]
                        != after[y] by {
                        if y == before.len() {
                            assert(before.contains(before[x]));
                        }
                    }
                    assert forall|id: Seq<u8>| #[trigger] after.contains(id) <==> before.contains(
                        id,
                    ) || id == id_here by {
                        if after.contains(id) {
                            let x = choose|x: int| 0 <= x < after.len() && after[x] == id;
                            if x < before.len() {
                                assert(before[x] == id);
                            }
                        }
                        if before.contains(id) {
                            let x = choose|x: int| 0 <= x < before.len() && before[x] == id;
                            assert(after[x] == id);
                        }
                        if id == id_here {
                            assert(after[before.len() as int] == id);
                        }
                    }
                    assert(self.table.id_at(i as int) == id_here);
                }
            }
            proof {
                let after = super::id_table::id_views(r@);
                assert forall|id: Seq<u8>| #[trigger] after.contains(id) <==> exists|j: int|
                    0 <= j < i + 1 && #[trigger] self.table.id_at(j) == id && self.table.value_at(j)
                        is Challenged by {
                    if exists|j: int|
                        0 <= j < i + 1 && #[trigger] self.table.id_at(j) == id
                            && self.table.value_at(j) is Challenged {
                        let j = choose|j: int|
                            0 <= j < i + 1 && #[trigger] self.table.id_at(j) == id
                                && self.table.value_at(j) is Challenged;
                        if j < i {
                            assert(before.contains(id));
                        }
                    }
                    if before.contains(id) {
                        let j = choose|j: int|
                            0 <= j < i && #[trigger] self.table.id_at(j) == id
                                && self.table.value_at(j) is Challenged;
                        assert(0 <= j < i + 1);
                    }
                }
            }
            i += 1;
        }
        proof {
            assert forall|id: Seq<u8>| #[trigger]
                super::id_table::id_views(r@).contains(id) <==> self.table@.contains_key(id)
                    && self.table@[id] is Challenged by {
                if self.table@.contains_key(id) && self.table@[id] is Challenged {
                    let j = choose|j: int|
                        0 <= j < self.table.spec_len() && #[trigger] self.table.id_at(j) == id;
                    assert(self.table.value_at(j) is Challenged);
                }
            }
        }
        r
    }

    /// Checks a login against its challenge.
    pub fn verify_login(&self, params: &LoginParams) -> (r: Result<(), WebshooterError>)
        requires
            self.well_formed(),
        ensures
            match r {
                Ok(_) => login_failure(self.table@, *params) is None,
                Err(e) => login_failure(self.table@, *params) == Some(e),
            },
    {
        let (id, signature) = match params {
            LoginParams::Signature { id, signature } => (id, signature),
            LoginParams::IdOnly { .. } => {
                return Err(WebshooterError::InvalidLogin);
            },
        };
        let challenge = match self.table.get(id.0.as_slice()) {
            Some(Session::Challenged(challenge)) => challenge,
            _ => {
                return Err(WebshooterError::NotChallenged);
            },
        };
        if crypto::check_public_key(id.0.as_slice()).is_err() {
            return Err(WebshooterError::InvalidLogin);
        }
        if !crypto::is_signature(signature.0.as_slice()) {
            return Err(WebshooterError::InvalidLogin);
        }
        if crypto::verify(id.0.as_slice(), challenge.as_slice(), signature.0.as_slice()) {
            Ok(())
        } else {
            Err(WebshooterError::ChallengeFailed)
        }
    }

    /// Notes that a login succeeded: its session goes by this cookie, and its key is known
    /// from now on.
    pub fn approve(
        &mut self,
        keys: &mut AuthorisedKeys,
        id: Bytes64,
        cookie: Vec<u8>,
        now: u64,
    )
        requires
            old(self).well_formed(),
            old(keys).well_formed(),
        ensures
            final(self).well_formed(),
            final(keys).well_formed(),
            final(self).table@ == old(self).table@.insert(
                id@,
                Session::Approved { cookie, created_at: now },
            ),
            final(keys)@ == old(keys)@.insert(id@),
    {
        let copy = id.duplicate();
        self.table.insert(id.into_vec(), Session::Approved { cookie, created_at: now });
        keys.insert(copy);
    }

    /// Logs in, once it is clear what came of the wait for an authorisation, which only a key
    /// that is not known needs. Where the challenge is met, the session gets a new cookie, which
    /// is returned, and the key is known from now on. Otherwise nothing changes.
    pub fn login_inner(
        &mut self,
        keys: &mut AuthorisedKeys,
        params: LoginParams,
        wait: WaitOutcome,
        now: u64,
    ) -> (r: Result<Bytes64, LoginError>)
        requires
            old(self).well_formed(),
            old(keys).well_formed(),
        ensures
            final(self).well_formed(),
            final(keys).well_formed(),
            match r {
                Ok(cookie) => {
                    &&& login_refusal(old(keys)@, old(self).table@, params, wait) is None
                    &&& cookie@.len() == COOKIE_SIZE
                    &&& final(self).table@.contains_key(params.who())
                    &&& approved_with(final(self).table@[params.who()], cookie@, now)
                    &&& final(self).table@.remove(params.who()) == old(self).table@.remove(
                        params.who(),
                    )
                    &&& final(keys)@ == old(keys)@.insert(params.who())
                },
                Err(e) => {
                    &&& login_refusal(old(keys)@, old(self).table@, params, wait) == Some(e)
                    &&& final(self).table@ == old(self).table@
                    &&& final(keys)@ == old(keys)@
                },
            },
            r matches Ok(cookie) ==> cookie@.len() == 1024,
    {
        match login_gate(keys, &params) {
            Err(e) => {
                return Err(LoginError::Refused(e));
            },
            Ok(LoginGate::Open) => {},
            Ok(LoginGate::NeedsAuthorisation) => match wait {
                WaitOutcome::Granted => {},
                WaitOutcome::TimedOut => {
                    return Err(LoginError::TimedOut);
                },
                WaitOutcome::Failed(reason) => {
                    return Err(LoginError::Failed(reason));
                },
            },
        }
        match self.verify_login(&params) {
            Err(e) => Err(LoginError::Refused(e)),
            Ok(_) => {
                let cookie = crypto::random_bytes(COOKIE_SIZE);
                let copy = vstd::slice::slice_to_vec(cookie.as_slice());
                assert(copy@ =~= cookie@);
                self.approve(keys, params.into_id(), copy, now);
                assert(self.table@.remove(params.who()) =~= old(self).table@.remove(params.who()));
                Ok(Bytes64(cookie))
            },
        }
    }

    /// Who sent a request with these cookie headers: the one whose session is approved, not
    /// too old, and goes by the first cookie named `token`.
    pub fn authenticate(&self, cookies: &Vec<String>, now: u64) -> (r: Result<
        Authenticated,
        WebshooterError,
    >)
        requires
            self.well_formed(),
        ensures
            match wt::parameter(text::views(cookies@), "token"@) {
                None => r == Err::<Authenticated, WebshooterError>(
                    WebshooterError::NoAuthentication,
                ),
                Some(token) => match r {
                    Ok(who) => live_session(self.table@, who.id@, token, now),
                    Err(e) => e == WebshooterError::NotAuthorized && forall|id: Seq<u8>|
                        !#[trigger] live_session(self.table@, id, token, now),
                },
            },
    {
        let token = match wt::find_parameter(cookies, "token") {
            Some(token) => token,
            None => {
                return Err(WebshooterError::NoAuthentication);
            },
        };
        proof {
            self.table.entries_are_the_map();
        }
        let mut i: usize = 0;
        while i < self.table.len()
            invariant
                self.well_formed(),
                i <= self.table.spec_len(),
                wt::parameter(text::views(cookies@), "token"@) == Some(token@),
                forall|j: int|
                    0 <= j < i ==> !live_session(
                        self.table@,
                        #[trigger] self.table.id_at(j),
                        token@,
                        now,
                    ),
                forall|j: int|
                    0 <= j < self.table.spec_len() ==> self.table@.contains_key(
                        #[trigger] self.table.id_at(j),
                    ) && self.table@[self.table.id_at(j)] == self.table.value_at(j),
            decreases self.table.spec_len() - i,
        {
            assert(self.table@.contains_key(self.table.id_at(i as int)));
            if let Session::Approved { cookie, created_at } = self.table.value(i) {
                if elapsed(*created_at, now) <= COOKIE_TTL_NS {
                    let text = base64::encode(cookie.as_slice());
                    if text::str_eq(text.as_str(), token.as_str()) {
                        let id = vstd::slice::slice_to_vec(self.table.id(i).as_slice());
                        assert(id@ =~= self.table.id_at(i as int));
                        return Ok(Authenticated { id: Bytes64(id) });
                    }
                }
            }
            i += 1;
        }
        proof {
            assert forall|id: Seq<u8>| !#[trigger] live_session(self.table@, id, token@, now) by {
                if self.table@.contains_key(id) {
                    let j = choose|j: int|
                        0 <= j < self.table.spec_len() && #[trigger] self.table.id_at(j) == id;
                    assert(!live_session(self.table@, self.table.id_at(j), token@, now));
                }
            }
        }
        Err(WebshooterError::NotAuthorized)
    }
}

/// Who a request says it comes from: the header `id` holds a key in base64.
pub fn identity(header: Option<&str>) -> (r: Result<Bytes64, WebshooterError>)
    ensures
        match r {
            Ok(id) => header matches Some(s) && base64::unbase64(s@) == Some(id@),
            Err(e) => e == WebshooterError::NoAuthentication && (header matches Some(s)
                ==> base64::unbase64(s@) is None),
        },
{
    match header {
        Some(s) => match Bytes64::from_str(s) {
            Ok(id) => Ok(id),
            Err(_) => Err(WebshooterError::NoAuthentication),
        },
        None => Err(WebshooterError::NoAuthentication),
    }
}

/// Whether a key is known.
pub fn check_identity(keys: &AuthorisedKeys, id: &Bytes64) -> (r: Result<(), WebshooterError>)
    ensures
        r == (if keys@.contains(id@) {
            Ok::<(), WebshooterError>(())
        } else {
            Err(WebshooterError::NotAuthorized)
        }),
{
    if keys.contains(id.0.as_slice()) {
        Ok(())
    } else {
        Err(WebshooterError::NotAuthorized)
    }
}

/// What a login waits for. One without a signature fails.
pub fn login_gate(keys: &AuthorisedKeys, params: &LoginParams) -> (r: Result<
    LoginGate,
    WebshooterError,
>)
    ensures
        r == (match *params {
            LoginParams::IdOnly { id } => Err::<LoginGate, WebshooterError>(
                WebshooterError::InvalidLogin,
            ),
            LoginParams::Signature { id, signature } => if keys@.contains(id@) {
                Ok(LoginGate::Open)
            } else {
                Ok(LoginGate::NeedsAuthorisation)
            },
        }),
        r is Err <==> *params is IdOnly,
        r == Ok::<LoginGate, WebshooterError>(LoginGate::Open) <==> *params is Signature
            && keys@.contains(params.who()),
{
    match params {
        LoginParams::IdOnly { .. } => Err(WebshooterError::InvalidLogin),
        LoginParams::Signature { id, .. } => if keys.contains(id.0.as_slice()) {
            Ok(LoginGate::Open)
        } else {
            Ok(LoginGate::NeedsAuthorisation)
        },
    }
}

/// What the cookie header of a login that succeeded says.
pub open spec fn cookie_text(cookie: Seq<u8>) -> Seq<char> {
    "token="@ + base64::base64(cookie) + "; HttpOnly; Secure; SameSite=Strict"@
}

/// The cookie header of a login that succeeded.
pub fn cookie_header(cookie: &Bytes64) -> (s: String)
    ensures
        s@ == cookie_text(cookie@),
{
    let mut s = "token=".to_owned();
    let encoded = cookie.to_string();
    s.append(encoded.as_str());
    s.append("; HttpOnly; Secure; SameSite=Strict");
    s
}

/// How long a login waits for its authorisation, in seconds.
pub fn auth_timeout_secs(configured: Option<u64>) -> (r: u64)
    ensures
        r == (match configured {
            Some(n) => n,
            None => DEFAULT_AUTH_TIMEOUT_SECS,
        }),
        configured is None ==> r == 30,
        configured matches Some(n) ==> r == n,
{
    configured.unwrap_or(DEFAULT_AUTH_TIMEOUT_SECS)
}

// ----- authorisation

/// The short name of a key. It has at least 32 bytes.
pub fn format_id(id: &[u8]) -> (s: String)
    requires
        id@.len() >= 32,
    ensures
        s@ == ipc::short_id(id@),
        s@ == text::trimmed(base64::base64(id@.subrange(24, 32)), CharClass::Is('=')),
{
    ipc::format_id(id)
}

/// What a command means for a login that waits for its authorisation.
pub enum Authorisation {
    /// The login is let in; say this.
    Granted(String),
    /// Say this and go on waiting.
    Reply(String),
    /// The command may be meant for another login: pass it on.
    Yield,
}

/// Whether the names that a command needs can be shown: the keys are long enough.
pub open spec fn names_showable(message: IPCMessage, id: Seq<u8>, sessions: Seq<Vec<u8>>) -> bool {
    match message {
        IPCMessage::Authorise(None) => if sessions.len() == 1 {
            id.len() >= 32
        } else {
            forall|i: int| 0 <= i < sessions.len() ==> (#[trigger] sessions[i])@.len() >= 32
        },
        IPCMessage::Authorise(Some(n)) => n < sessions.len() && super::bytes::agree(
            id,
            sessions[n as int]@,
        ) ==> sessions[n as int]@.len() >= 32,
        _ => true,
    }
}

/// Whether the names that a command needs can be shown.
pub fn can_show_names(message: IPCMessage, id: &[u8], sessions: &Vec<Vec<u8>>) -> (r: bool)
    ensures
        r == names_showable(message, id@, sessions@),
{
    match message {
        IPCMessage::Authorise(None) => {
            if sessions.len() == 1 {
                return id.len() >= 32;
            }
            let mut i: usize = 0;
            while i < sessions.len()
                invariant
                    i <= sessions.len(),
                    message == IPCMessage::Authorise(None),
                    sessions@.len() != 1,
                    forall|j: int| 0 <= j < i ==> (#[trigger] sessions@[j])@.len() >= 32,
                decreases sessions.len() - i,
            {
                if sessions[i].len() < 32 {
                    assert(sessions@[i as int]@.len() < 32);
                    return false;
                }
                i += 1;
            }
            true
        },
        IPCMessage::Authorise(Some(n)) => n >= sessions.len() || !bytes_agree(
            id,
            sessions[n].as_slice(),
        ) || sessions[n].len() >= 32,
        _ => true,
    }
}

/// What a command means for the login of `id` while these sessions are challenged: the only
/// session is let in without a number, otherwise the one with the number, if it is this
/// login's.
pub fn authorisation_step(message: IPCMessage, id: &[u8], sessions: &Vec<Vec<u8>>) -> (r:
    Authorisation)
    requires
        names_showable(message, id@, sessions@),
    ensures
        match message {
            IPCMessage::Authorise(None) => if sessions@.len() == 1 {
                r matches Authorisation::Granted(s) && s@ == "Authorised "@ + ipc::short_id(id@)
            } else {
                r matches Authorisation::Reply(s) && s@ == ipc::selection(
                    ipc::short_ids(sessions@),
                )
            },
            IPCMessage::Authorise(Some(n)) => if n < sessions@.len() && super::bytes::agree(
                id@,
                sessions@[n as int]@,
            ) {
                r matches Authorisation::Granted(s) && s@ == "Authorised "@ + ipc::short_id(
                    sessions@[n as int]@,
                )
            } else {
                r is Yield
            },
            _ => r matches Authorisation::Reply(s) && s@ == "Invalid message: "@ + ipc::shown(
                message,
            ),
        },
{
    match message {
        IPCMessage::Authorise(None) => {
            if sessions.len() == 1 {
                let mut s = "Authorised ".to_owned();
                let short = format_id(id);
                s.append(short.as_str());
                Authorisation::Granted(s)
            } else {
                let names = ipc::short_names(sessions);
                Authorisation::Reply(ipc::selection_text(&names))
            }
        },
        IPCMessage::Authorise(Some(n)) => {
            if n < sessions.len() && bytes_agree(id, sessions[n].as_slice()) {
                let mut s = "Authorised ".to_owned();
                let short = format_id(sessions[n].as_slice());
                s.append(short.as_str());
                Authorisation::Granted(s)
            } else {
                Authorisation::Yield
            }
        },
        _ => {
            let mut s = "Invalid message: ".to_owned();
            let shown = ipc::show(message);
            s.append(shown.as_str());
            Authorisation::Reply(s)
        },
    }
}

/// What a client is told when its login is refused.
pub struct Rejection {
    pub status: u16,
    pub message: String,
}

/// The answer to a login after too many failed ones.
pub fn rate_limit_rejection() -> (r: Rejection)
    ensures
        r.status == 429,
        r.message@ == "Rate limit exceeded"@,
{
    Rejection { status: 429, message: "Rate limit exceeded".to_owned() }
}

/// The status and the message for a login that was refused.
pub open spec fn refusal_answer(error: LoginError) -> (u16, Seq<char>) {
    match error {
        LoginError::Refused(e) => (super::error::error_status(e), super::error::error_message(e)),
        LoginError::TimedOut => (403, "Did not authorise within deadline has elapsed"@),
        LoginError::Failed(reason) => (500, reason@),
    }
}

/// The answer to a login that was refused.
pub fn login_rejection(error: LoginError) -> (r: Rejection)
    ensures
        (r.status, r.message@) == refusal_answer(error),
{
    match error {
        LoginError::Refused(e) => Rejection { status: e.status(), message: e.message() },
        LoginError::TimedOut => Rejection {
            status: 403,
            message: "Did not authorise within deadline has elapsed".to_owned(),
        },
        LoginError::Failed(reason) => Rejection { status: 500, message: reason },
    }
}

// ----- the limit on failed logins

/// The failed logins from one address.
#[derive(Debug, Clone, Copy, PartialEq, Eq, Structural)]
pub struct RateLimitEntry {
    pub count: u32,
    /// When counting began, in nanoseconds.
    pub window_start: u64,
}

/// The failed logins by address.
pub struct RateLimits {
    v4: HashMap<u32, RateLimitEntry>,
    v6: HashMap<u128, RateLimitEntry>,
}

/// The entry as it counts now: after a minute the count begins anew.
pub open spec fn current_entry(e: RateLimitEntry, now: u64) -> RateLimitEntry {
    if time_between(e.window_start, now) > RATE_LIMIT_WINDOW_NS {
        RateLimitEntry { count: 0, window_start: now }
    } else {
        e
    }
}

fn refresh(e: RateLimitEntry, now: u64) -> (r: RateLimitEntry)
    ensures
        r == current_entry(e, now),
{
    if elapsed(e.window_start, now) > RATE_LIMIT_WINDOW_NS {
        RateLimitEntry { count: 0, window_start: now }
    } else {
        e
    }
}

/// What counts of an address once a login from it was asked for.
pub open spec fn asked_entry(e: Option<RateLimitEntry>, now: u64) -> Option<RateLimitEntry> {
    match e {
        Some(e) => Some(current_entry(e, now)),
        None => None,
    }
}

/// The entry after another failure.
pub open spec fn after_failure(e: Option<RateLimitEntry>, now: u64) -> RateLimitEntry {
    match e {
        Some(e) => RateLimitEntry {
            count: (current_entry(e, now).count + 1) as u32,
            window_start: current_entry(e, now).window_start,
        },
        None => RateLimitEntry { count: 1, window_start: now },
    }
}

/// Whether another attempt is let through.
pub open spec fn attempt_allowed(e: Option<RateLimitEntry>, max_attempts: u32, now: u64) -> bool {
    e matches Some(e) ==> current_entry(e, now).count < max_attempts
}

impl RateLimits {
    /// The failures from an address.
    pub closed spec fn entry(self, ip: IpAddress) -> Option<RateLimitEntry> {
        match ip {
            IpAddress::V4(n) => if self.v4@.contains_key(n) {
                Some(self.v4@[n])
            } else {
                None
            },
            IpAddress::V6(n) => if self.v6@.contains_key(n) {
                Some(self.v6@[n])
            } else {
                None
            },
        }
    }

    /// No login has failed.
    pub fn new() -> (r: RateLimits)
        ensures
            forall|ip: IpAddress| #[trigger] r.entry(ip) is None,
    {
        RateLimits { v4: HashMap::new(), v6: HashMap::new() }
    }

    fn get(&self, ip: IpAddress) -> (r: Option<RateLimitEntry>)
        ensures
            r == self.entry(ip),
    {
        match ip {
            IpAddress::V4(n) => match self.v4.get(&n) {
                Some(e) => Some(*e),
                None => None,
            },
            IpAddress::V6(n) => match self.v6.get(&n) {
                Some(e) => Some(*e),
                None => None,
            },
        }
    }

    fn set(&mut self, ip: IpAddress, e: RateLimitEntry)
        ensures
            final(self).entry(ip) == Some(e),
            forall|other: IpAddress| other != ip ==> #[trigger] final(self).entry(other) == old(
                self,
            ).entry(other),
    {
        match ip {
            IpAddress::V4(n) => {
                self.v4.insert(n, e);
            },
            IpAddress::V6(n) => {
                self.v6.insert(n, e);
            },
        }
    }

    /// Whether another attempt from an address is let through. A count that is more than a
    /// minute old begins anew.
    pub fn check_rate_limit(&mut self, ip: IpAddress, max_attempts: u32, now: u64) -> (allowed: bool)
        ensures
            allowed == attempt_allowed(old(self).entry(ip), max_attempts, now),
            final(self).entry(ip) == asked_entry(old(self).entry(ip), now),
            forall|other: IpAddress| other != ip ==> #[trigger] final(self).entry(other) == old(
                self,
            ).entry(other),
    {
        match self.get(ip) {
            Some(e) => {
                let e = refresh(e, now);
                self.set(ip, e);
                e.count < max_attempts
            },
            None => true,
        }
    }

    /// Whether a failure from an address can still be counted.
    pub fn can_record(&self, ip: IpAddress, now: u64) -> (r: bool)
        ensures
            r == (self.entry(ip) matches Some(e) ==> current_entry(e, now).count < u32::MAX),
    {
        match self.get(ip) {
            Some(e) => refresh(e, now).count < u32::MAX,
            None => true,
        }
    }

    /// A login from an address failed.
    pub fn record_rate_limit_failure(&mut self, ip: IpAddress, now: u64)
        requires
            old(self).entry(ip) matches Some(e) ==> current_entry(e, now).count < u32::MAX,
        ensures
            final(self).entry(ip) == Some(after_failure(old(self).entry(ip), now)),
            forall|other: IpAddress| other != ip ==> #[trigger] final(self).entry(other) == old(
                self,
            ).entry(other),
    {
        match self.get(ip) {
            Some(e) => {
                let e = refresh(e, now);
                self.set(
                    ip,
                    RateLimitEntry { count: e.count + 1, window_start: e.window_start },
                );
            },
            None => {
                self.set(ip, RateLimitEntry { count: 1, window_start: now });
            },
        }
    }

    /// A login from an address succeeded.
    pub fn reset_rate_limit(&mut self, ip: IpAddress)
        ensures
            final(self).entry(ip) is None,
            forall|other: IpAddress| other != ip ==> #[trigger] final(self).entry(other) == old(
                self,
            ).entry(other),
    {
        match ip {
            IpAddress::V4(n) => {
                self.v4.remove(&n);
            },
            IpAddress::V6(n) => {
                self.v6.remove(&n);
            },
        }
    }
}

/// The right to try one login from an address. There is no other way to one than
/// [`RateLimits::begin_login`].
pub struct Admission {
    ip: IpAddress,
}

impl View for Admission {
    type V = IpAddress;

    closed spec fn view(&self) -> IpAddress {
        self.ip
    }
}

/// The limit on failed logins where the configuration may name one.
pub open spec fn limit_of(configured: Option<u32>) -> u32 {
    match configured {
        Some(n) => n,
        None => DEFAULT_RATE_LIMIT,
    }
}

impl RateLimits {
    /// A login from an address is asked for: it may be tried, or it is refused for too many
    /// failures, and then it is neither tried nor counted.
    pub fn begin_login(&mut self, ip: IpAddress, configured: Option<u32>, now: u64) -> (r: Result<
        Admission,
        Rejection,
    >)
        ensures
            match r {
                Ok(admission) => attempt_allowed(old(self).entry(ip), limit_of(configured), now)
                    && admission@ == ip,
                Err(rejection) => !attempt_allowed(old(self).entry(ip), limit_of(configured), now)
                    && rejection.status == 429 && rejection.message@ == "Rate limit exceeded"@,
            },
            final(self).entry(ip) == asked_entry(old(self).entry(ip), now),
            forall|other: IpAddress| other != ip ==> #[trigger] final(self).entry(other) == old(
                self,
            ).entry(other),
    {
        if self.check_rate_limit(ip, rate_limit(configured), now) {
            Ok(Admission { ip })
        } else {
            Err(rate_limit_rejection())
        }
    }

    /// Whether the failure of a login that was admitted can still be counted.
    pub fn can_end_login(&self, admission: &Admission, succeeded: bool, now: u64) -> (r: bool)
        ensures
            r == (succeeded || (self.entry(admission@) matches Some(e) ==> current_entry(
                e,
                now,
            ).count < u32::MAX)),
    {
        succeeded || self.can_record(admission.ip, now)
    }

    /// A login that was admitted ended. A success forgets the failures before it and is answered
    /// with a cookie, a failure counts and is answered with its reason.
    pub fn end_login(
        &mut self,
        admission: Admission,
        result: Result<Bytes64, LoginError>,
        now: u64,
    ) -> (r: Result<String, Rejection>)
        requires
            result is Ok || (old(self).entry(admission@) matches Some(e) ==> current_entry(
                e,
                now,
            ).count < u32::MAX),
        ensures
            match result {
                Ok(cookie) => r matches Ok(s) && s@ == cookie_text(cookie@),
                Err(error) => r matches Err(e) && (e.status, e.message@) == refusal_answer(error),
            },
            final(self).entry(admission@) == (if result is Ok {
                None
            } else {
                Some(after_failure(old(self).entry(admission@), now))
            }),
            forall|other: IpAddress|
                other != admission@ ==> #[trigger] final(self).entry(other) == old(self).entry(
                    other,
                ),
    {
        match result {
            Ok(cookie) => {
                self.settle(admission.ip, true, now);
                Ok(cookie_header(&cookie))
            },
            Err(error) => {
                self.settle(admission.ip, false, now);
                Err(login_rejection(error))
            },
        }
    }
}

impl RateLimits {
    /// Takes note of how a login from an address ended: a success forgets the failures before
    /// it, a failure counts.
    pub fn settle(&mut self, ip: IpAddress, succeeded: bool, now: u64)
        requires
            succeeded || (old(self).entry(ip) matches Some(e) ==> current_entry(e, now).count
                < u32::MAX),
        ensures
            final(self).entry(ip) == (if succeeded {
                None
            } else {
                Some(after_failure(old(self).entry(ip), now))
            }),
            forall|other: IpAddress| other != ip ==> #[trigger] final(self).entry(other) == old(
                self,
            ).entry(other),
    {
        if succeeded {
            self.reset_rate_limit(ip);
        } else {
            self.record_rate_limit_failure(ip, now);
        }
    }
}

/// A whole login from an address, once it is clear what came of the wait for an authorisation:
/// it is asked for at one time and ends at another. Where the address failed too often it is
/// refused at once and nothing is tried. Otherwise the login is tried; if it succeeds, the
/// failures before it are forgotten and the answer holds the new cookie, and if it fails, that
/// counts and the answer holds the reason.
pub fn login(
    limits: &mut RateLimits,
    sessions: &mut AuthSessions,
    keys: &mut AuthorisedKeys,
    ip: IpAddress,
    configured: Option<u32>,
    params: LoginParams,
    wait: WaitOutcome,
    asked_at: u64,
    ended_at: u64,
) -> (r: Result<String, Rejection>)
    requires
        old(sessions).well_formed(),
        old(keys).well_formed(),
    ensures
        final(sessions).well_formed(),
        final(keys).well_formed(),
        ({
            let asked = asked_entry(old(limits).entry(ip), asked_at);
            if !attempt_allowed(old(limits).entry(ip), limit_of(configured), asked_at) {
                &&& r matches Err(e) && e.status == 429 && e.message@ == "Rate limit exceeded"@
                &&& final(limits).entry(ip) == asked
                &&& final(sessions).table@ == old(sessions).table@
                &&& final(keys)@ == old(keys)@
            } else {
                match login_refusal(old(keys)@, old(sessions).table@, params, wait) {
                    Some(error) => {
                        &&& r matches Err(e) && (e.status, e.message@) == refusal_answer(error)
                        &&& final(limits).entry(ip) == Some(after_failure(asked, ended_at))
                        &&& final(sessions).table@ == old(sessions).table@
                        &&& final(keys)@ == old(keys)@
                    },
                    None => {
                        &&& r matches Ok(s) && exists|cookie: Seq<u8>|
                            {
                                &&& cookie.len() == COOKIE_SIZE
                                &&& s@ == #[trigger] cookie_text(cookie)
                                &&& final(sessions).table@.contains_key(params.who())
                                &&& approved_with(
                                    final(sessions).table@[params.who()],
                                    cookie,
                                    ended_at,
                                )
                            }
                        &&& final(sessions).table@.remove(params.who())
                            == old(sessions).table@.remove(params.who())
                        &&& final(keys)@ == old(keys)@.insert(params.who())
                        &&& final(limits).entry(ip) is None
                    },
                }
            }
        }),
        forall|other: IpAddress| other != ip ==> #[trigger] final(limits).entry(other) == old(
            limits,
        ).entry(other),
{
    let admission = match limits.begin_login(ip, configured, asked_at) {
        Ok(admission) => admission,
        Err(rejection) => {
            return Err(rejection);
        },
    };
    let result = sessions.login_inner(keys, params, wait, ended_at);
    limits.end_login(admission, result, ended_at)
}

/// The entry after failures at these times.
pub open spec fn after_failures(e: Option<RateLimitEntry>, times: Seq<u64>) -> Option<
    RateLimitEntry,
>
    decreases times.len(),
{
    if times.len() == 0 {
        e
    } else {
        Some(after_failure(after_failures(e, times.drop_last()), times.last()))
    }
}

/// An address may fail as often as the limit says within a minute, and then not again: after
/// `n` failures within a minute of the first, another attempt is let through if and only if
/// `n` is below the limit.
pub proof fn failures_use_up_the_limit(times: Seq<u64>, max_attempts: u32, now: u64)
    requires
        times.len() <= u32::MAX,
        forall|i: int| 0 <= i < times.len() ==> time_between(times[0], #[trigger] times[i])
            <= RATE_LIMIT_WINDOW_NS,
        times.len() > 0 ==> time_between(times[0], now) <= RATE_LIMIT_WINDOW_NS,
    ensures
        times.len() > 0 ==> after_failures(None, times) == Some(
            RateLimitEntry { count: times.len() as u32, window_start: times[0] },
        ),
        attempt_allowed(after_failures(None, times), max_attempts, now) <==> times.len()
            < max_attempts || times.len() == 0,
    decreases times.len(),
{
    if times.len() > 0 {
        let before = times.drop_last();
        if before.len() > 0 {
            assert(before[0] == times[0]);
            assert forall|i: int| 0 <= i < before.len() implies time_between(
                before[0],
                #[trigger] before[i],
            ) <= RATE_LIMIT_WINDOW_NS by {
                assert(before[i] == times[i]);
            }
            assert(times[times.len() - 1] == times.last());
            failures_use_up_the_limit(before, max_attempts, times.last());
        } else {
            assert(before =~= Seq::<u64>::empty());
            assert(times[0] == times.last());
        }
    }
}

/// After a minute the limit is whole again.
pub proof fn limits_recover(e: RateLimitEntry, max_attempts: u32, now: u64)
    requires
        time_between(e.window_start, now) > RATE_LIMIT_WINDOW_NS,
        max_attempts > 0,
    ensures
        attempt_allowed(Some(e), max_attempts, now),
{
}

/// How many attempts may fail.
pub fn rate_limit(configured: Option<u32>) -> (r: u32)
    ensures
        r == limit_of(configured),
{
    configured.unwrap_or(DEFAULT_RATE_LIMIT)
}

/// The part of a forwarding header that names the client: what stands before the first
/// comma, without white space round it.
pub open spec fn forwarded_client(header: Seq<char>) -> Seq<char> {
    text::trimmed(
        match text::cut(header, ',') {
            Some((first, _)) => first,
            None => header,
        },
        CharClass::Whitespace,
    )
}

/// The part of a forwarding header that names the client.
pub fn forwarded_for<'a>(header: &'a str) -> (r: &'a str)
    ensures
        r@ == forwarded_client(header@),
{
    match text::split_once(header, ',') {
        Some((first, _)) => text::trim(first, CharClass::Whitespace),
        None => text::trim(header, CharClass::Whitespace),
    }
}

/// The address that a request counts for: the one that a proxy forwards, else the real one
/// that it names, else that of the connection, else none in particular.
pub fn client_ip(
    forwarded: Option<IpAddress>,
    real_ip: Option<IpAddress>,
    remote: Option<IpAddress>,
) -> (r: IpAddress)
    ensures
        r == (match forwarded {
            Some(ip) => ip,
            None => match real_ip {
                Some(ip) => ip,
                None => match remote {
                    Some(ip) => ip,
                    None => IpAddress::V4(0),
                },
            },
        }),
        forwarded is Some ==> forwarded == Some(r),
        forwarded is None && real_ip is Some ==> real_ip == Some(r),
        forwarded is None && real_ip is None && remote is Some ==> remote == Some(r),
{
    match forwarded {
        Some(ip) => ip,
        None => match real_ip {
            Some(ip) => ip,
            None => remote.unwrap_or(IpAddress::V4(0)),
        },
    }
}

// ----- one-time tokens

/// The length of a one-time token.
pub const ONETIME_LENGTH: usize = 256;

/// How long a one-time token is good for, in seconds.
pub const ONETIME_SECS: u64 = 5;

/// The same while debugging.
pub const ONETIME_DEBUG_SECS: u64 = 300;

/// A token that lets one WebTransport session in.
#[derive(Debug)]
pub struct OnetimeToken {
    bytes: Vec<u8>,
}

impl View for OnetimeToken {
    type V = Seq<u8>;

    closed spec fn view(&self) -> Seq<u8> {
        self.bytes@
    }
}

impl OnetimeToken {
    /// A token has its length.
    pub open spec fn well_formed(self) -> bool {
        self@.len() == ONETIME_LENGTH
    }

    /// The token in some bytes: the first ones of them.
    pub fn try_from(value: &Bytes64) -> (r: Result<OnetimeToken, WebshooterError>)
        ensures
            r is Ok == (value@.len() >= ONETIME_LENGTH),
            r matches Ok(t) ==> t.well_formed() && t@ == value@.take(ONETIME_LENGTH as int),
            r matches Err(e) ==> e == WebshooterError::InvalidLogin,
    {
        if value.0.len() < ONETIME_LENGTH {
            return Err(WebshooterError::InvalidLogin);
        }
        let bytes = vstd::slice::slice_to_vec(
            vstd::slice::slice_subrange(value.0.as_slice(), 0, ONETIME_LENGTH),
        );
        assert(bytes@ =~= value@.take(ONETIME_LENGTH as int));
        Ok(OnetimeToken { bytes })
    }

    /// The token in base64, as it is sent.
    pub fn to_string(&self) -> (s: String)
        ensures
            s@ == base64::base64(self@),
    {
        base64::encode(self.bytes.as_slice())
    }
}

/// The tokens that were issued and not used yet, each with the key that it was issued to. None
/// occurs twice.
pub struct OnetimeTokens {
    table: IdTable<Vec<u8>>,
}

impl View for OnetimeTokens {
    type V = Map<Seq<u8>, Seq<u8>>;

    closed spec fn view(&self) -> Map<Seq<u8>, Seq<u8>> {
        self.table@.map_values(|holder: Vec<u8>| holder@)
    }
}

impl OnetimeTokens {
    pub closed spec fn well_formed(self) -> bool {
        self.table.well_formed()
    }

    /// None was issued.
    pub fn new() -> (t: OnetimeTokens)
        ensures
            t.well_formed(),
            t@ == Map::<Seq<u8>, Seq<u8>>::empty(),
    {
        let t = OnetimeTokens { table: IdTable::new() };
        assert(t@ =~= Map::<Seq<u8>, Seq<u8>>::empty());
        t
    }

    /// Takes note of a token and its holder.
    pub fn insert(&mut self, token: &OnetimeToken, holder: &[u8])
        requires
            old(self).well_formed(),
        ensures
            final(self).well_formed(),
            final(self)@ == old(self)@.insert(token@, holder@),
    {
        let copy = vstd::slice::slice_to_vec(token.bytes.as_slice());
        assert(copy@ =~= token@);
        let kept = vstd::slice::slice_to_vec(holder);
        assert(kept@ =~= holder@);
        self.table.insert(copy, kept);
        assert(self@ =~= old(self)@.insert(token@, holder@));
    }

    /// Issues a new token to a holder.
    pub fn issue(&mut self, holder: &[u8]) -> (token: OnetimeToken)
        requires
            old(self).well_formed(),
        ensures
            final(self).well_formed(),
            token.well_formed(),
            final(self)@ == old(self)@.insert(token@, holder@),
    {
        let token = OnetimeToken { bytes: crypto::random_bytes(ONETIME_LENGTH) };
        self.insert(&token, holder);
        token
    }

    /// Uses a token up; returns its holder where it was still good.
    pub fn redeem(&mut self, token: &OnetimeToken) -> (holder: Option<Vec<u8>>)
        requires
            old(self).well_formed(),
        ensures
            final(self).well_formed(),
            final(self)@ == old(self)@.remove(token@),
            match holder {
                Some(key) => old(self)@.contains_key(token@) && key@ == old(self)@[token@],
                None => !old(self)@.contains_key(token@),
            },
    {
        let holder = self.table.remove(token.bytes.as_slice());
        assert(self@ =~= old(self)@.remove(token@));
        holder
    }

    /// Uses a token up, or lets it expire; says whether it was still good.
    pub fn check(&mut self, token: &OnetimeToken) -> (good: bool)
        requires
            old(self).well_formed(),
        ensures
            final(self).well_formed(),
            good == old(self)@.contains_key(token@),
            final(self)@ == old(self)@.remove(token@),
    {
        self.redeem(token).is_some()
    }

    /// Decides about a WebTransport request by the token in its path, which is used up. A
    /// request that is let in is one of the token's holder.
    pub fn webtransport_auth(&mut self, path: &str) -> (r: Result<Vec<u8>, WtRefusal>)
        requires
            old(self).well_formed(),
        ensures
            final(self).well_formed(),
            match r {
                Ok(holder) => wt_refusal(old(self)@.dom(), path@) is None && wt_holder(
                    old(self)@,
                    path@,
                ) == Some(holder@),
                Err(e) => wt_refusal(old(self)@.dom(), path@) == Some(e),
            },
            final(self)@ == (match token_in_path(path@) {
                Some(token) => old(self)@.remove(token),
                None => old(self)@,
            }),
    {
        let text = match wt::token_from_path(path) {
            Some(text) => text,
            None => {
                return Err(WtRefusal::NoAuthentication);
            },
        };
        let bytes = match Bytes64::from_str(text.as_str()) {
            Ok(bytes) => bytes,
            Err(_) => {
                return Err(WtRefusal::InvalidBase64);
            },
        };
        match OnetimeToken::try_from(&bytes) {
            Ok(token) => match self.redeem(&token) {
                Some(holder) => Ok(holder),
                None => Err(WtRefusal::NotAuthorized),
            },
            Err(_) => Err(WtRefusal::InvalidLogin),
        }
    }
}

/// Why a WebTransport request is refused.
#[derive(Debug, Clone, Copy, PartialEq, Eq, Structural)]
pub enum WtRefusal {
    /// There is no token in the path.
    NoAuthentication,
    /// The token is no base64.
    InvalidBase64,
    /// The token is too short.
    InvalidLogin,
    /// The token is not good, or not any more.
    NotAuthorized,
}

/// The one-time token in the path of a request.
pub open spec fn token_in_path(path: Seq<char>) -> Option<Seq<u8>> {
    match wt::path_token(path) {
        None => None,
        Some(text) => match base64::unbase64(text) {
            None => None,
            Some(bytes) => if bytes.len() < ONETIME_LENGTH {
                None
            } else {
                Some(bytes.take(ONETIME_LENGTH as int))
            },
        },
    }
}

/// Why a WebTransport request is refused while these tokens are good, if it is.
pub open spec fn wt_refusal(tokens: Set<Seq<u8>>, path: Seq<char>) -> Option<WtRefusal> {
    match wt::path_token(path) {
        None => Some(WtRefusal::NoAuthentication),
        Some(text) => match base64::unbase64(text) {
            None => Some(WtRefusal::InvalidBase64),
            Some(bytes) => if bytes.len() < ONETIME_LENGTH {
                Some(WtRefusal::InvalidLogin)
            } else if tokens.contains(bytes.take(ONETIME_LENGTH as int)) {
                None
            } else {
                Some(WtRefusal::NotAuthorized)
            },
        },
    }
}

/// Whose request one is while these tokens are good, going by the token in its path.
pub open spec fn wt_holder(tokens: Map<Seq<u8>, Seq<u8>>, path: Seq<char>) -> Option<Seq<u8>> {
    match token_in_path(path) {
        Some(token) => if tokens.contains_key(token) {
            Some(tokens[token])
        } else {
            None
        },
        None => None,
    }
}

/// A token lets a session in once: a request that was let in is refused when it comes again.
pub proof fn tokens_are_used_once(tokens: Set<Seq<u8>>, path: Seq<char>)
    requires
        wt_refusal(tokens, path) is None,
    ensures
        wt_refusal(tokens.remove(token_in_path(path)->0), path) == Some(WtRefusal::NotAuthorized),
{
}

/// A token that was issued lets the session in whose address names it, as one of its holder,
/// whatever page the address is that of.
pub proof fn issued_tokens_are_accepted(
    tokens: Map<Seq<u8>, Seq<u8>>,
    token: Seq<u8>,
    holder: Seq<u8>,
    page: Seq<char>,
)
    requires
        token.len() == ONETIME_LENGTH,
        !page.contains('?'),
    ensures
        token_in_path(page + "?token="@ + base64::base64(token)) == Some(token),
        wt_refusal(
            tokens.insert(token, holder).dom(),
            page + "?token="@ + base64::base64(token),
        ) is None,
        wt_holder(tokens.insert(token, holder), page + "?token="@ + base64::base64(token)) == Some(
            holder,
        ),
{
    let written = base64::base64(token);
    let path = page + "?token="@ + written;
    reveal_strlit("?token=");
    reveal_strlit("token");
    let class = CharClass::Is('?');
    assert(path[page.len() as int] == '?');
    assert forall|k: int| 0 <= k < page.len() implies !text::in_class(#[trigger] path[k], class) by {
        assert(path[k] == page[k]);
        assert(page.contains(page[k]));
    }
    text::first_place_is(path, class, true, 0, page.len());
    let query = path.skip(page.len() as int + 1);
    assert(query =~= "token="@ + written) by {
        reveal_strlit("token=");
    }
    reveal_strlit("token=");
    base64::base64_is_plain(token);
    assert forall|k: int| 0 <= k < query.len() implies !text::in_class(
        #[trigger] query[k],
        CharClass::Is('&'),
    ) by {
        if k >= 6 {
            assert(query[k] == written[k - 6]);
        }
    }
    text::first_place_is(query, CharClass::Is('&'), true, 0, query.len());
    assert(text::pieces(query, '&') =~= seq![query]);
    text::first_place_is(query, CharClass::Is('='), true, 0, 5);
    assert(query.take(5) =~= "token"@);
    assert(query.skip(6) =~= written);
    assert(wt::parameter(seq![query], "token"@) == Some(written));
    base64::base64_reads_back(token);
    assert(token.take(ONETIME_LENGTH as int) =~= token);
}

/// A session that was approved is known by the cookie that its login was given, until the
/// cookie is a day old.
pub proof fn cookies_are_known(
    sessions: Map<Seq<u8>, Session>,
    id: Seq<u8>,
    cookie: Vec<u8>,
    created_at: u64,
    now: u64,
)
    ensures
        live_session(
            sessions.insert(id, Session::Approved { cookie, created_at }),
            id,
            base64::base64(cookie@),
            now,
        ) <==> time_between(created_at, now) <= COOKIE_TTL_NS,
{
}

/// A login that is challenged anew loses its session.
pub proof fn challenges_end_sessions(
    sessions: Map<Seq<u8>, Session>,
    id: Seq<u8>,
    challenge: Vec<u8>,
    token: Seq<char>,
    now: u64,
)
    ensures
        !live_session(sessions.insert(id, Session::Challenged(challenge)), id, token, now),
{
}

/// Time that has passed is the difference of two times, and none where the clock went back.
pub proof fn time_passes_forwards(since: u64, now: u64)
    ensures
        now >= since ==> time_between(since, now) == now - since,
        now < since ==> time_between(since, now) == 0,
{
}

/// A cookie is good for a day after it was given, for the one it was given to, and it alone.
pub proof fn cookies_last_a_day(
    sessions: Map<Seq<u8>, Session>,
    id: Seq<u8>,
    cookie: Vec<u8>,
    created_at: u64,
    now: u64,
    token: Seq<char>,
)
    ensures
        live_session(
            sessions.insert(id, Session::Approved { cookie, created_at }),
            id,
            token,
            now,
        ) <==> token == base64::base64(cookie@) && now <= created_at + 86_400_000_000_000,
        !live_session(sessions.remove(id), id, token, now),
{
}

/// Which logins fail, and how: one without a signature cannot be understood, nor can one whose key
/// or signature has no proper form; one without a challenge was not challenged; and one whose
/// signature does not hold has failed its challenge.
pub proof fn logins_fail_for_reasons(
    sessions: Map<Seq<u8>, Session>,
    id: Bytes64,
    signature: Bytes64,
    challenge: Vec<u8>,
)
    ensures
        login_failure(sessions, LoginParams::IdOnly { id }) == Some(WebshooterError::InvalidLogin),
        !sessions.contains_key(id@) || sessions[id@] is Approved ==> login_failure(
            sessions,
            LoginParams::Signature { id, signature },
        ) == Some(WebshooterError::NotChallenged),
        ({
            let s = sessions.insert(id@, Session::Challenged(challenge));
            let r = login_failure(s, LoginParams::Signature { id, signature });
            let formed = crypto::public_key_fault(id@) is None && crypto::signature_form(
                signature@,
            );
            &&& r == Some(WebshooterError::InvalidLogin) <==> !formed
            &&& r == Some(WebshooterError::ChallengeFailed) <==> formed && !crypto::signature_holds(
                id@,
                challenge@,
                signature@,
            )
            &&& r is None <==> formed && crypto::signature_holds(id@, challenge@, signature@)
        }),
{
}

/// The owner is asked only for a stranger that signs: whoever is known, or does not sign at all,
/// is answered the same whatever came of asking. A stranger who was granted access is answered as
/// one who is known.
pub proof fn only_strangers_wait(
    keys: Set<Seq<u8>>,
    sessions: Map<Seq<u8>, Session>,
    params: LoginParams,
    a: WaitOutcome,
    b: WaitOutcome,
)
    ensures
        keys.contains(params.who()) || params is IdOnly ==> login_refusal(keys, sessions, params, a)
            == login_refusal(keys, sessions, params, b),
        login_refusal(keys, sessions, params, WaitOutcome::Granted) == login_refusal(
            keys.insert(params.who()),
            sessions,
            params,
            a,
        ),
        !keys.contains(params.who()) && params is Signature ==> login_refusal(
            keys,
            sessions,
            params,
            WaitOutcome::TimedOut,
        ) == Some(LoginError::TimedOut),
        !keys.contains(params.who()) && params is Signature ==> (a matches WaitOutcome::Failed(
            reason,
        ) ==> login_refusal(keys, sessions, params, a) == Some(LoginError::Failed(reason))),
{
}

/// A refusal is answered with the status and the words of its error; one for want of time with
/// 403, and one of another cause with 500 and its reason.
pub proof fn refusals_have_their_status(error: LoginError)
    ensures
        error is TimedOut ==> refusal_answer(error).0 == 403,
        error matches LoginError::Failed(reason) ==> refusal_answer(error).0 == 500
            && refusal_answer(error).1 == reason@,
        error matches LoginError::Refused(e) ==> refusal_answer(error).0
            == super::error::error_status(e) && refusal_answer(error).1
            == super::error::error_message(e),
{
}

/// Failures are counted for a minute: the first one starts the minute, those within it add up, and
/// the first one after it starts another.
pub proof fn failures_are_counted_by_the_minute(e: RateLimitEntry, now: u64)
    requires
        e.count < u32::MAX,
    ensures
        after_failure(None, now).count == 1,
        after_failure(None, now).window_start == now,
        now <= e.window_start + 60_000_000_000 ==> after_failure(Some(e), now).count == e.count + 1
            && after_failure(Some(e), now).window_start == e.window_start,
        now > e.window_start + 60_000_000_000 ==> after_failure(Some(e), now).count == 1
            && after_failure(Some(e), now).window_start == now,
{
}

/// An attempt is allowed where nothing failed and where fewer failed than the limit says; once the
/// minute is over, it is allowed under any limit but zero.
pub proof fn attempts_are_allowed_below_the_limit(e: RateLimitEntry, max_attempts: u32, now: u64)
    ensures
        attempt_allowed(None, max_attempts, now),
        now <= e.window_start + 60_000_000_000 ==> (attempt_allowed(Some(e), max_attempts, now)
            <==> e.count < max_attempts),
        now > e.window_start + 60_000_000_000 ==> (attempt_allowed(Some(e), max_attempts, now)
            <==> max_attempts > 0),
{
}

/// To ask changes only what is over: a minute that is begins anew without failures, and one that
/// is not stays as it is. What is allowed does not depend on having asked before.
pub proof fn asking_counts_for_nothing(e: Option<RateLimitEntry>, max_attempts: u32, now: u64)
    ensures
        asked_entry(None, now) is None,
        e matches Some(f) ==> (now <= f.window_start + 60_000_000_000 ==> asked_entry(e, now) == e),
        e matches Some(f) ==> (now > f.window_start + 60_000_000_000 ==> asked_entry(e, now) == Some(
            RateLimitEntry { count: 0, window_start: now },
        )),
        attempt_allowed(asked_entry(e, now), max_attempts, now) == attempt_allowed(
            e,
            max_attempts,
            now,
        ),
{
}

/// Ten attempts are allowed where nothing else is configured.
pub proof fn ten_attempts_are_usual(n: u32)
    ensures
        limit_of(None) == 10,
        limit_of(Some(n)) == n,
{
}

/// A client behind proxies is the first in the list, without the white space around it.
pub proof fn the_first_forwarded_client_counts(first: Seq<char>, rest: Seq<char>)
    requires
        !first.contains(','),
    ensures
        forwarded_client(first + seq![','] + rest) == text::trimmed(first, CharClass::Whitespace),
        forwarded_client(first) == text::trimmed(first, CharClass::Whitespace),
{
    text::texts_are_cut_at_the_first(first + seq![','] + rest, ',', first, rest);
    text::texts_are_cut_at_the_first(first, ',', first, rest);
}

/// The cookie's header names the token, keeps it from scripts, from plain connections and from
/// other sites.
pub proof fn cookies_are_kept_close(cookie: Seq<u8>)
    ensures
        text::begins(cookie_text(cookie), "token="@ + base64::base64(cookie) + ";"@),
        text::occurs(cookie_text(cookie), "; HttpOnly"@),
        text::occurs(cookie_text(cookie), "; Secure"@),
        text::ends(cookie_text(cookie), "; SameSite=Strict"@),
{
    let start = "token="@ + base64::base64(cookie);
    reveal_strlit(";");
    reveal_strlit("; HttpOnly");
    reveal_strlit("; Secure");
    reveal_strlit("; SameSite=Strict");
    reveal_strlit("; HttpOnly; Secure; SameSite=Strict");
    let s = cookie_text(cookie);
    let n = start.len() as int;
    assert(s.subrange(0, n + 1) =~= start + ";"@);
    assert(s.subrange(n, n + 10) =~= "; HttpOnly"@);
    assert(text::occurs_at(s, "; HttpOnly"@, n));
    assert(s.subrange(n + 10, n + 18) =~= "; Secure"@);
    assert(text::occurs_at(s, "; Secure"@, n + 10));
    assert(s.subrange(n + 18, n + 35) =~= "; SameSite=Strict"@);
}

/// A connection is let in where its path holds a token that was given out, and by no other; else
/// it is told what is wrong: no token, no base64, too few bytes, or a token that is not known.
pub proof fn connections_need_a_known_token(
    tokens: Map<Seq<u8>, Seq<u8>>,
    path: Seq<char>,
    given: Seq<char>,
)
    requires
        wt::path_token(path) == Some(given),
    ensures
        token_in_path(path) matches Some(t) ==> t.len() == 256 && (base64::unbase64(
            given,
        ) matches Some(bytes) && bytes.take(256) == t),
        wt_refusal(tokens.dom(), path) is None <==> (token_in_path(path) matches Some(t)
            && tokens.contains_key(t)),
        wt_refusal(tokens.dom(), path) == Some(WtRefusal::InvalidBase64) <==> base64::unbase64(
            given,
        ) is None,
        wt_refusal(tokens.dom(), path) == Some(WtRefusal::InvalidLogin) <==> (base64::unbase64(
            given,
        ) matches Some(bytes) && bytes.len() < 256),
        wt_refusal(tokens.dom(), path) == Some(WtRefusal::NotAuthorized) <==> (token_in_path(
            path,
        ) matches Some(t) && !tokens.contains_key(t)),
        wt_holder(tokens, path) is Some <==> wt_refusal(tokens.dom(), path) is None,
        wt_holder(tokens, path) matches Some(holder) ==> holder == tokens[token_in_path(path)->0],
{
}

/// A path without a token is refused for that.
pub proof fn connections_need_a_token(tokens: Map<Seq<u8>, Seq<u8>>, path: Seq<char>)
    requires
        wt::path_token(path) is None,
    ensures
        wt_refusal(tokens.dom(), path) == Some(WtRefusal::NoAuthentication),
        wt_holder(tokens, path) is None,
        token_in_path(path) is None,
{
}

} // verus!
