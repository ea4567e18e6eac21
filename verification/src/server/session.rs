//! Logging in with sorted sessions and cookies that name their age.
use super::auth::{LoginGate, Rejection, WaitOutcome, CHALLENGE_SIZE, COOKIE_SIZE};
use super::base64;
use super::bytes::{bytes_agree, bytes_eq, bytes_ordered};
use super::crypto;
use super::error::WebshooterError;
use super::id_table::IdTable;
use super::ipc::{self, IPCMessage};
use crate::shared::config::Bytes64;
use crate::text;
use vstd::prelude::*;

verus! {

/// How far a login is.
pub enum Session {
    Challenged(Vec<u8>),
    Approved { cookie: Vec<u8> },
}

/// A request without a session.
#[derive(Debug, Clone, Copy, PartialEq, Eq, Structural)]
pub struct Unauthorized;

// ----- the order of sessions

/// Whether the keys are in the order of a dictionary.
pub open spec fn in_order(ids: Seq<Seq<u8>>) -> bool {
    forall|i: int, j: int| 0 <= i < j < ids.len() ==> super::bytes::ordered(ids[i], ids[j])
}

/// Puts keys in the order of a dictionary.
pub fn sort_ids(ids: Vec<Vec<u8>>) -> (r: Vec<Vec<u8>>)
    ensures
        in_order(super::id_table::id_views(r@)),
        r@.to_multiset() == ids@.to_multiset(),
{
    let mut rest = ids;
    let ghost all = ids@;
    let mut r: Vec<Vec<u8>> = Vec::new();
    proof {
        broadcast use vstd::seq_lib::group_to_multiset_ensures;
        assert(r@.to_multiset().add(rest@.to_multiset()) =~= all.to_multiset());
    }
    while rest.len() > 0
        invariant
            in_order(super::id_table::id_views(r@)),
            r@.to_multiset().add(rest@.to_multiset()) == all.to_multiset(),
        decreases rest@.len(),
    {
        let ghost before_rest = rest@;
        if let Some(id) = rest.pop() {
            let ghost sorted = r@;
            let mut at: usize = 0;
            while at < r.len() && !bytes_ordered(id.as_slice(), r[at].as_slice())
                invariant
                    at <= r@.len(),
                    r@ == sorted,
                    forall|j: int| 0 <= j < at ==> !super::bytes::ordered(id@, (#[trigger] r@[j])@),
                decreases r@.len() - at,
            {
                at += 1;
            }
            r.insert(at, id);
            proof {
                broadcast use vstd::seq_lib::group_to_multiset_ensures;

                let old_views = super::id_table::id_views(sorted);
                let views = super::id_table::id_views(r@);
                assert(views =~= old_views.insert(at as int, id@));
                assert forall|i: int, j: int| 0 <= i < j < views.len() implies super::bytes::ordered(
                    views[i],
                    views[j],
                ) by {
                    let x = if i < at {
                        i
                    } else {
                        i - 1
                    };
                    let y = if j < at {
                        j
                    } else {
                        j - 1
                    };
                    if i != at && j != at {
                        assert(views[i] == old_views[x] && views[j] == old_views[y]);
                    } else if j == at {
                        assert(views[i] == sorted[i]@);
                        super::bytes::order_is_total(id@, views[i]);
                    } else {
                        assert(views[j] == old_views[y]);
                        if y > at {
                            assert(super::bytes::ordered(old_views[at as int], old_views[y]));
                            super::bytes::order_is_transitive(
                                id@,
                                old_views[at as int],
                                old_views[y],
                            );
                        }
                    }
                }
                assert(before_rest =~= rest@.push(id));
                assert(r@ =~= sorted.insert(at as int, id));
                assert(r@.to_multiset() =~= sorted.to_multiset().insert(id));
                assert(before_rest.to_multiset() =~= rest@.to_multiset().insert(id));
                assert(r@.to_multiset().add(rest@.to_multiset()) =~= sorted.to_multiset().add(
                    before_rest.to_multiset(),
                ));
            }
        }
    }
    proof {
        broadcast use vstd::seq_lib::group_to_multiset_ensures;

        assert(rest@ =~= Seq::<Vec<u8>>::empty());
        assert(r@.to_multiset().add(rest@.to_multiset()) =~= r@.to_multiset());
    }
    r
}

// ----- challenges

/// A new challenge for `id`, in place of whatever session it had.
pub fn challenge(sessions: &mut IdTable<Session>, id: Bytes64) -> (r: Vec<u8>)
    requires
        old(sessions).well_formed(),
    ensures
        final(sessions).well_formed(),
        r@.len() == CHALLENGE_SIZE,
        final(sessions)@.contains_key(id@),
        final(sessions)@[id@] matches Session::Challenged(c) && c@ == r@,
        final(sessions)@.remove(id@) == old(sessions)@.remove(id@),
        r@.len() == 256,
{
    let r = crypto::random_bytes(CHALLENGE_SIZE);
    let copy = vstd::slice::slice_to_vec(r.as_slice());
    assert(copy@ =~= r@);
    sessions.insert(id.into_vec(), Session::Challenged(copy));
    assert(sessions@.remove(id@) =~= old(sessions)@.remove(id@));
    r
}

/// Whether `ids` are the keys that were sent a challenge and have not met it, each once.
pub open spec fn are_challenged(sessions: Map<Seq<u8>, Session>, ids: Seq<Seq<u8>>) -> bool {
    &&& ids.no_duplicates()
    &&& forall|id: Seq<u8>| #[trigger]
        ids.contains(id) <==> sessions.contains_key(id) && sessions[id] is Challenged
}

fn collect_challenged(sessions: &IdTable<Session>) -> (r: Vec<Vec<u8>>)
    requires
        sessions.well_formed(),
    ensures
        are_challenged(sessions@, super::id_table::id_views(r@)),
{
    let mut r: Vec<Vec<u8>> = Vec::new();
    let mut i: usize = 0;
    // Where each of the keys found so far stands in the table.
    let ghost mut places: Seq<int> = Seq::empty();
    while i < sessions.len()
        invariant
            sessions.well_formed(),
            i <= sessions.spec_len(),
            places.len() == r@.len(),
            forall|k: int|
                0 <= k < places.len() ==> 0 <= #[trigger] places[k] < i && sessions.id_at(places[k])
                    == r@[k]@ && sessions.value_at(places[k]) is Challenged,
            forall|k: int, l: int| 0 <= k < l < places.len() ==> places[k] < places[l],
            forall|j: int|
                0 <= j < i && (#[trigger] sessions.value_at(j)) is Challenged ==> places.contains(
                    j,
                ),
        decreases sessions.spec_len() - i,
    {
        if let Session::Challenged(_) = sessions.value(i) {
            let id = vstd::slice::slice_to_vec(sessions.id(i).as_slice());
            assert(id@ =~= sessions.id_at(i as int));
            r.push(id);
            let ghost before = places;
            proof {
                places = places.push(i as int);
                assert forall|j: int| before.contains(j) || j == i implies places.contains(j) by {
                    if j == i {
                        assert(places[before.len() as int] == j);
                    } else {
                        let k = choose|k: int| 0 <= k < before.len() && before[k] == j;
                        assert(places[k] == j);
                    }
                }
            }
        }
        i += 1;
    }
    proof {
        sessions.entries_are_the_map();
        let ids = super::id_table::id_views(r@);
        assert forall|k: int, l: int| 0 <= k < l < ids.len() implies ids[k] != ids[l] by {
            assert(sessions.id_at(places[k]) != sessions.id_at(places[l]));
        }
        assert forall|id: Seq<u8>| #[trigger]
            ids.contains(id) <==> sessions@.contains_key(id) && sessions@[id] is Challenged by {
            if ids.contains(id) {
                let k = choose|k: int| 0 <= k < ids.len() && ids[k] == id;
                assert(sessions.id_at(places[k]) == id);
            }
            if sessions@.contains_key(id) && sessions@[id] is Challenged {
                let j = choose|j: int|
                    0 <= j < sessions.spec_len() && #[trigger] sessions.id_at(j) == id;
                assert(sessions.value_at(j) is Challenged);
                let k = choose|k: int| 0 <= k < places.len() && places[k] == j;
                assert(ids[k] == id);
            }
        }
    }
    r
}

proof fn sorting_keeps_the_challenged(
    sessions: Map<Seq<u8>, Session>,
    a: Seq<Vec<u8>>,
    b: Seq<Vec<u8>>,
)
    requires
        a.to_multiset() == b.to_multiset(),
        are_challenged(sessions, super::id_table::id_views(a)),
    ensures
        are_challenged(sessions, super::id_table::id_views(b)),
{
    broadcast use vstd::seq_lib::group_to_multiset_ensures;

    let x = super::id_table::id_views(a);
    let y = super::id_table::id_views(b);
    assert forall|id: Seq<u8>| #[trigger] x.contains(id) <==> y.contains(id) by {
        if x.contains(id) {
            let k = choose|k: int| 0 <= k < x.len() && x[k] == id;
            assert(a.contains(a[k]));
            assert(b.to_multiset().count(a[k]) > 0);
            assert(b.contains(a[k]));
            let l = choose|l: int| 0 <= l < b.len() && b[l] == a[k];
            assert(y[l] == id);
        }
        if y.contains(id) {
            let l = choose|l: int| 0 <= l < y.len() && y[l] == id;
            assert(b.contains(b[l]));
            assert(a.to_multiset().count(b[l]) > 0);
            assert(a.contains(b[l]));
            let k = choose|k: int| 0 <= k < a.len() && a[k] == b[l];
            assert(x[k] == id);
        }
    }
    assert(x.to_set() =~= y.to_set());
    a.to_multiset_ensures();
    b.to_multiset_ensures();
    assert(x.len() == y.len());
    x.unique_seq_to_set();
    vstd::seq_lib::seq_to_set_is_finite(y);
    y.lemma_no_dup_set_cardinality();
    assert forall|id: Seq<u8>| #[trigger]
        y.contains(id) <==> sessions.contains_key(id) && sessions[id] is Challenged by {
        assert(x.contains(id) <==> y.contains(id));
    }
}

/// The keys that were sent a challenge and have not met it, in the order of a dictionary.
pub fn challenged_ids(sessions: &IdTable<Session>) -> (r: Vec<Vec<u8>>)
    requires
        sessions.well_formed(),
    ensures
        in_order(super::id_table::id_views(r@)),
        are_challenged(sessions@, super::id_table::id_views(r@)),
{
    let found = collect_challenged(sessions);
    let ghost unsorted = found@;
    let r = sort_ids(found);
    proof {
        sorting_keeps_the_challenged(sessions@, unsorted, r@);
    }
    r
}

// ----- authorisation

/// The keys in base64.
pub open spec fn full_ids(ids: Seq<Vec<u8>>) -> Seq<Seq<char>> {
    ids.map_values(|id: Vec<u8>| base64::base64(id@))
}

/// What a command means for a login that waits for its authorisation.
pub fn authorisation_step(message: IPCMessage, id: &[u8], sessions: &Vec<Vec<u8>>) -> (r:
    super::auth::Authorisation)
    ensures
        match message {
            IPCMessage::Authorise(None) => if sessions@.len() == 1 {
                r matches super::auth::Authorisation::Granted(s) && s@ == "Authorised "@
                    + base64::base64(id@)
            } else {
                r matches super::auth::Authorisation::Reply(s) && s@ == ipc::selection(
                    full_ids(sessions@),
                )
            },
            IPCMessage::Authorise(Some(n)) => if n < sessions@.len() && super::bytes::agree(
                id@,
                sessions@[n as int]@,
            ) {
                r matches super::auth::Authorisation::Granted(s) && s@ == "Authorised "@
                    + base64::base64(sessions@[n as int]@)
            } else {
                r is Yield
            },
            _ => r matches super::auth::Authorisation::Reply(s) && s@ == "Invalid message: "@
                + ipc::shown(message),
        },
{
    match message {
        IPCMessage::Authorise(None) => {
            if sessions.len() == 1 {
                let mut s = "Authorised ".to_owned();
                let name = base64::encode(id);
                s.append(name.as_str());
                super::auth::Authorisation::Granted(s)
            } else {
                let mut names: Vec<String> = Vec::new();
                let mut i: usize = 0;
                while i < sessions.len()
                    invariant
                        i <= sessions.len(),
                        names@.len() == i,
                        forall|j: int|
                            0 <= j < i ==> (#[trigger] names@[j])@ == base64::base64(
                                sessions@[j]@,
                            ),
                    decreases sessions.len() - i,
                {
                    names.push(base64::encode(sessions[i].as_slice()));
                    i += 1;
                }
                assert(text::views(names@) =~= full_ids(sessions@));
                super::auth::Authorisation::Reply(ipc::selection_text(&names))
            }
        },
        IPCMessage::Authorise(Some(n)) => {
            if n < sessions.len() && bytes_agree(id, sessions[n].as_slice()) {
                let mut s = "Authorised ".to_owned();
                let name = base64::encode(sessions[n].as_slice());
                s.append(name.as_str());
                super::auth::Authorisation::Granted(s)
            } else {
                super::auth::Authorisation::Yield
            }
        },
        _ => {
            let mut s = "Invalid message: ".to_owned();
            let shown = ipc::show(message);
            s.append(shown.as_str());
            super::auth::Authorisation::Reply(s)
        },
    }
}

// ----- logging in

/// What a login request holds.
pub enum LoginParams {
    IdOnly { id: Bytes64 },
    Signature { id: Bytes64, signature: Bytes64 },
}

impl LoginParams {
    /// Who logs in.
    pub open spec fn who(self) -> Seq<u8> {
        match self {
            LoginParams::IdOnly { id } => id@,
            LoginParams::Signature { id, signature } => id@,
        }
    }

    /// Who logs in.
    pub fn id(&self) -> (r: &[u8])
        ensures
            r@ == self.who(),
    {
        match self {
            LoginParams::IdOnly { id } => id.as_slice(),
            LoginParams::Signature { id, .. } => id.as_slice(),
        }
    }

    /// Who logs in.
    pub fn into_id(self) -> (r: Bytes64)
        ensures
            r@ == self.who(),
    {
        match self {
            LoginParams::IdOnly { id } => id,
            LoginParams::Signature { id, .. } => id,
        }
    }
}

/// Why a login is refused.
pub enum LoginError {
    /// An identity provider is configured.
    OidcUnsupported,
    /// The request does not do.
    Refused(WebshooterError),
    /// Nobody authorised it within so many seconds.
    TimedOut(u64),
    /// The user at the machine cannot be heard, for this reason.
    Failed(String),
    /// The key is malformed, in these words.
    InvalidKey(String),
    /// The signature is malformed.
    InvalidSignature,
}

/// The message for a login that was refused.
pub open spec fn login_error_message(e: LoginError) -> Seq<char> {
    match e {
        LoginError::OidcUnsupported => "OIDC not yet supported."@,
        LoginError::Refused(e) => super::error::error_message(e),
        LoginError::TimedOut(secs) => "Did not get authorised within "@ + text::decimal(secs as nat)
            + " seconds, rejecting connection"@,
        LoginError::Failed(reason) => reason@,
        LoginError::InvalidKey(fault) => fault@,
        LoginError::InvalidSignature => "signature error"@,
    }
}

/// The answer to a login that was refused.
pub fn login_rejection(error: LoginError) -> (r: Rejection)
    ensures
        r.status == 500,
        r.message@ == login_error_message(error),
{
    let message = match error {
        LoginError::OidcUnsupported => "OIDC not yet supported.".to_owned(),
        LoginError::Refused(e) => e.message(),
        LoginError::TimedOut(secs) => {
            let mut s = "Did not get authorised within ".to_owned();
            text::push_decimal(&mut s, secs);
            s.append(" seconds, rejecting connection");
            s
        },
        LoginError::Failed(reason) => reason,
        LoginError::InvalidKey(fault) => fault,
        LoginError::InvalidSignature => "signature error".to_owned(),
    };
    Rejection { status: 500, message }
}

/// Whether a key is among those that are known.
pub open spec fn key_known(keys: Seq<Bytes64>, id: Seq<u8>) -> bool {
    exists|i: int| 0 <= i < keys.len() && (#[trigger] keys[i])@ == id
}

fn knows(keys: &Vec<Bytes64>, id: &[u8]) -> (r: bool)
    ensures
        r == key_known(keys@, id@),
{
    let mut i: usize = 0;
    while i < keys.len()
        invariant
            i <= keys.len(),
            forall|j: int| 0 <= j < i ==> (#[trigger] keys@[j])@ != id@,
        decreases keys.len() - i,
    {
        if bytes_eq(keys[i].as_slice(), id) {
            return true;
        }
        i += 1;
    }
    false
}

/// What a login waits for. One without a signature fails, and so does any while an identity
/// provider is configured.
pub fn login_gate(oidc: bool, keys: &Vec<Bytes64>, params: &LoginParams) -> (r: Result<
    LoginGate,
    LoginError,
>)
    ensures
        r == (if oidc {
            Err::<LoginGate, LoginError>(LoginError::OidcUnsupported)
        } else if params is IdOnly {
            Err(LoginError::Refused(WebshooterError::InvalidLogin))
        } else if key_known(keys@, params.who()) {
            Ok(LoginGate::Open)
        } else {
            Ok(LoginGate::NeedsAuthorisation)
        }),
{
    if oidc {
        return Err(LoginError::OidcUnsupported);
    }
    match params {
        LoginParams::IdOnly { .. } => Err(LoginError::Refused(WebshooterError::InvalidLogin)),
        LoginParams::Signature { .. } => if knows(keys, params.id()) {
            Ok(LoginGate::Open)
        } else {
            Ok(LoginGate::NeedsAuthorisation)
        },
    }
}

/// Why a login is refused at its challenge, if it is.
pub open spec fn is_challenge_refusal(
    sessions: Map<Seq<u8>, Session>,
    id: Seq<u8>,
    signature: Seq<u8>,
    e: Option<LoginError>,
) -> bool {
    if !sessions.contains_key(id) || !(sessions[id] is Challenged) {
        e == Some(LoginError::Refused(WebshooterError::NotChallenged))
    } else if crypto::public_key_fault(id) is Some {
        e matches Some(LoginError::InvalidKey(fault)) && crypto::public_key_fault(id) == Some(
            fault@,
        )
    } else if !crypto::signature_form(signature) {
        e == Some(LoginError::InvalidSignature)
    } else if !crypto::signature_holds(id, sessions[id]->Challenged_0@, signature) {
        e == Some(LoginError::Refused(WebshooterError::ChallengeFailed))
    } else {
        e is None
    }
}

/// Whether `e` is why a login is refused, or nothing where it is not: first an identity provider
/// and a missing signature count, then the authorisation of a key that is not known, then the
/// challenge.
pub open spec fn is_login_refusal(
    oidc: bool,
    keys: Seq<Bytes64>,
    sessions: Map<Seq<u8>, Session>,
    params: LoginParams,
    wait: WaitOutcome,
    timeout_secs: u64,
    e: Option<LoginError>,
) -> bool {
    if oidc {
        e == Some(LoginError::OidcUnsupported)
    } else {
        match params {
            LoginParams::IdOnly { id } => e == Some(
                LoginError::Refused(WebshooterError::InvalidLogin),
            ),
            LoginParams::Signature { id, signature } => if key_known(keys, id@) || wait is Granted {
                is_challenge_refusal(sessions, id@, signature@, e)
            } else if wait is TimedOut {
                e == Some(LoginError::TimedOut(timeout_secs))
            } else {
                e == Some(LoginError::Failed(wait->Failed_0))
            },
        }
    }
}

fn check_challenge(sessions: &IdTable<Session>, id: &[u8], signature: &[u8]) -> (r: Result<
    (),
    LoginError,
>)
    requires
        sessions.well_formed(),
    ensures
        is_challenge_refusal(
            sessions@,
            id@,
            signature@,
            match r {
                Ok(_) => None,
                Err(e) => Some(e),
            },
        ),
{
    let challenge = match sessions.get(id) {
        Some(Session::Challenged(challenge)) => challenge,
        _ => {
            return Err(LoginError::Refused(WebshooterError::NotChallenged));
        },
    };
    if let Err(fault) = crypto::check_public_key(id) {
        return Err(LoginError::InvalidKey(fault));
    }
    if !crypto::is_signature(signature) {
        return Err(LoginError::InvalidSignature);
    }
    if crypto::verify(id, challenge.as_slice(), signature) {
        Ok(())
    } else {
        Err(LoginError::Refused(WebshooterError::ChallengeFailed))
    }
}

/// Logs in, once it is clear what came of the wait for an authorisation, which only a key that
/// is not known needs. Where the challenge is met, the session gets a new cookie, which is
/// returned. Otherwise nothing changes.
pub fn login(
    sessions: &mut IdTable<Session>,
    oidc: bool,
    keys: &Vec<Bytes64>,
    params: LoginParams,
    wait: WaitOutcome,
    timeout_secs: u64,
) -> (r: Result<Bytes64, LoginError>)
    requires
        old(sessions).well_formed(),
    ensures
        final(sessions).well_formed(),
        is_login_refusal(
            oidc,
            keys@,
            old(sessions)@,
            params,
            wait,
            timeout_secs,
            match r {
                Ok(_) => None,
                Err(e) => Some(e),
            },
        ),
        match r {
            Ok(cookie) => {
                &&& cookie@.len() == COOKIE_SIZE
                &&& final(sessions)@.contains_key(params.who())
                &&& has_cookie(final(sessions)@[params.who()], cookie@)
                &&& final(sessions)@.remove(params.who()) == old(sessions)@.remove(params.who())
            },
            Err(_) => final(sessions)@ == old(sessions)@,
        },
        r matches Ok(cookie) ==> cookie@.len() == 1024,
{
    match login_gate(oidc, keys, &params) {
        Err(e) => {
            return Err(e);
        },
        Ok(LoginGate::Open) => {},
        Ok(LoginGate::NeedsAuthorisation) => match wait {
            WaitOutcome::Granted => {},
            WaitOutcome::TimedOut => {
                return Err(LoginError::TimedOut(timeout_secs));
            },
            WaitOutcome::Failed(reason) => {
                return Err(LoginError::Failed(reason));
            },
        },
    }
    if let LoginParams::Signature { id, signature } = &params {
        if let Err(e) = check_challenge(sessions, id.as_slice(), signature.as_slice()) {
            return Err(e);
        }
    }
    let cookie = crypto::random_bytes(COOKIE_SIZE);
    let copy = vstd::slice::slice_to_vec(cookie.as_slice());
    assert(copy@ =~= cookie@);
    let id = params.into_id();
    sessions.insert(id.into_vec(), Session::Approved { cookie: copy });
    assert(sessions@.remove(params.who()) =~= old(sessions)@.remove(params.who()));
    Ok(Bytes64::new(cookie))
}

/// Nobody gets in whose key is not known and whom the user at the machine did not let in.
pub proof fn strangers_are_refused(
    oidc: bool,
    keys: Seq<Bytes64>,
    sessions: Map<Seq<u8>, Session>,
    params: LoginParams,
    wait: WaitOutcome,
    timeout_secs: u64,
)
    requires
        !key_known(keys, params.who()),
        wait !is Granted,
    ensures
        !is_login_refusal(oidc, keys, sessions, params, wait, timeout_secs, None),
{
}

/// Nobody gets in without a signature of the challenge that was sent last.
pub proof fn admitted_logins_are_signed(
    oidc: bool,
    keys: Seq<Bytes64>,
    sessions: Map<Seq<u8>, Session>,
    params: LoginParams,
    wait: WaitOutcome,
    timeout_secs: u64,
)
    requires
        is_login_refusal(oidc, keys, sessions, params, wait, timeout_secs, None),
    ensures
        params matches LoginParams::Signature { id, signature } && sessions.contains_key(id@) && (
        sessions[id@] matches Session::Challenged(challenge) && crypto::signature_holds(
            id@,
            challenge@,
            signature@,
        )),
{
}

/// A login is spent: it is refused when it comes again, since its challenge is gone.
pub proof fn admitted_logins_are_spent(
    keys: Seq<Bytes64>,
    sessions: Map<Seq<u8>, Session>,
    params: LoginParams,
    wait: WaitOutcome,
    timeout_secs: u64,
    cookie: Vec<u8>,
)
    requires
        is_login_refusal(false, keys, sessions, params, wait, timeout_secs, None),
    ensures
        is_login_refusal(
            false,
            keys,
            sessions.insert(params.who(), Session::Approved { cookie }),
            params,
            wait,
            timeout_secs,
            Some(LoginError::Refused(WebshooterError::NotChallenged)),
        ),
{
}

/// The cookie header of a login that succeeded.
pub fn cookie_header(cookie: &Bytes64, ttl_secs: u64) -> (s: String)
    ensures
        s@ == "token="@ + base64::base64(cookie@) + "; HttpOnly; SameSite=Strict; Max-Age="@
            + text::decimal(ttl_secs as nat),
{
    let mut s = "token=".to_owned();
    let encoded = cookie.to_string();
    s.append(encoded.as_str());
    s.append("; HttpOnly; SameSite=Strict; Max-Age=");
    text::push_decimal(&mut s, ttl_secs);
    s
}

// ----- requests

/// Whether a session was approved with this cookie.
pub open spec fn has_cookie(s: Session, cookie: Seq<u8>) -> bool {
    s matches Session::Approved { cookie: c } && c@ == cookie
}

/// The cookie of a request, if it is that of an approved session.
pub fn auth_validation(sessions: &IdTable<Session>, token: &Bytes64) -> (r: Result<
    Vec<u8>,
    Unauthorized,
>)
    requires
        sessions.well_formed(),
    ensures
        r is Ok == exists|id: Seq<u8>|
            #![trigger sessions@.contains_key(id)]
            sessions@.contains_key(id) && has_cookie(sessions@[id], token@),
        r matches Ok(cookie) ==> cookie@ == token@,
{
    proof {
        sessions.entries_are_the_map();
    }
    let mut i: usize = 0;
    while i < sessions.len()
        invariant
            sessions.well_formed(),
            i <= sessions.spec_len(),
            forall|j: int| 0 <= j < i ==> !has_cookie(#[trigger] sessions.value_at(j), token@),
            forall|j: int|
                0 <= j < sessions.spec_len() ==> sessions@.contains_key(
                    #[trigger] sessions.id_at(j),
                ) && sessions@[sessions.id_at(j)] == sessions.value_at(j),
            forall|id: Seq<u8>| #[trigger]
                sessions@.contains_key(id) ==> exists|j: int|
                    0 <= j < sessions.spec_len() && #[trigger] sessions.id_at(j) == id,
        decreases sessions.spec_len() - i,
    {
        if let Session::Approved { cookie } = sessions.value(i) {
            if bytes_eq(cookie.as_slice(), token.as_slice()) {
                assert(sessions@.contains_key(sessions.id_at(i as int)));
                let copy = vstd::slice::slice_to_vec(cookie.as_slice());
                assert(copy@ =~= token@);
                return Ok(copy);
            }
        }
        i += 1;
    }
    proof {
        assert forall|id: Seq<u8>| #[trigger] sessions@.contains_key(id) implies !has_cookie(
            sessions@[id],
            token@,
        ) by {
            let j = choose|j: int| 0 <= j < sessions.spec_len() && #[trigger] sessions.id_at(j) == id;
            assert(!has_cookie(sessions.value_at(j), token@));
        }
    }
    Err(Unauthorized)
}

/// What a request is told that has a session.
pub fn authenticated_text(cookie: &[u8]) -> (s: String)
    ensures
        s@ == "Authenticated as "@ + base64::base64(cookie@),
{
    let mut s = "Authenticated as ".to_owned();
    let encoded = base64::encode(cookie);
    s.append(encoded.as_str());
    s
}

/// Which answers a challenge gets: that there was none, what is wrong with the key, that the
/// signature has no proper form, that it does not hold, or none at all where it does.
pub proof fn challenges_are_answered_for_reasons(
    sessions: Map<Seq<u8>, Session>,
    id: Seq<u8>,
    signature: Seq<u8>,
    challenge: Vec<u8>,
    e: Option<LoginError>,
)
    ensures
        !sessions.contains_key(id) || sessions[id] is Approved ==> (is_challenge_refusal(
            sessions,
            id,
            signature,
            e,
        ) <==> e == Some(LoginError::Refused(WebshooterError::NotChallenged))),
        ({
            let s = sessions.insert(id, Session::Challenged(challenge));
            let key = crypto::public_key_fault(id);
            let formed = crypto::signature_form(signature);
            let holds = crypto::signature_holds(id, challenge@, signature);
            &&& is_challenge_refusal(s, id, signature, None) <==> key is None && formed && holds
            &&& is_challenge_refusal(
                s,
                id,
                signature,
                Some(LoginError::Refused(WebshooterError::ChallengeFailed)),
            ) <==> key is None && formed && !holds
            &&& is_challenge_refusal(s, id, signature, Some(LoginError::InvalidSignature))
                <==> key is None && !formed
            &&& e matches Some(LoginError::InvalidKey(fault)) ==> (is_challenge_refusal(
                s,
                id,
                signature,
                e,
            ) <==> key == Some(fault@))
        }),
{
}

/// The owner is asked only for a stranger that signs; with another way to log in nothing here is.
pub proof fn only_strangers_are_asked_about(
    keys: Seq<Bytes64>,
    sessions: Map<Seq<u8>, Session>,
    params: LoginParams,
    a: WaitOutcome,
    b: WaitOutcome,
    timeout_secs: u64,
    e: Option<LoginError>,
)
    ensures
        is_login_refusal(true, keys, sessions, params, a, timeout_secs, e) <==> e == Some(
            LoginError::OidcUnsupported,
        ),
        key_known(keys, params.who()) || params is IdOnly ==> is_login_refusal(
            false,
            keys,
            sessions,
            params,
            a,
            timeout_secs,
            e,
        ) == is_login_refusal(false, keys, sessions, params, b, timeout_secs, e),
        params is IdOnly ==> (is_login_refusal(false, keys, sessions, params, a, timeout_secs, e)
            <==> e == Some(LoginError::Refused(WebshooterError::InvalidLogin))),
        params is Signature && !key_known(keys, params.who()) ==> (is_login_refusal(
            false,
            keys,
            sessions,
            params,
            WaitOutcome::TimedOut,
            timeout_secs,
            e,
        ) <==> e == Some(LoginError::TimedOut(timeout_secs))),
        params matches LoginParams::Signature { id, signature } ==> (is_login_refusal(
            false,
            keys,
            sessions,
            params,
            WaitOutcome::Granted,
            timeout_secs,
            e,
        ) <==> is_challenge_refusal(sessions, id@, signature@, e)),
{
}

/// A key is known where it is one of the list, wherever it stands.
pub proof fn keys_are_known_by_their_bytes(
    before: Seq<Bytes64>,
    key: Bytes64,
    after: Seq<Bytes64>,
    id: Seq<u8>,
)
    ensures
        key_known(before + seq![key] + after, key@),
        key_known(before.push(key), id) <==> key_known(before, id) || key@ == id,
        !key_known(Seq::empty(), id),
{
    let all = before + seq![key] + after;
    assert(all[before.len() as int] == key);
    let more = before.push(key);
    assert(more[before.len() as int] == key);
    if key_known(before, id) {
        let i = choose|i: int| 0 <= i < before.len() && (#[trigger] before[i])@ == id;
        assert(more[i]@ == id);
    }
    if key_known(more, id) {
        let i = choose|i: int| 0 <= i < more.len() && (#[trigger] more[i])@ == id;
        if i < before.len() {
            assert(before[i]@ == id);
        }
    }
}

/// Those that were challenged are listed once each, and nobody else is: no one without a session
/// and no one whose session was approved.
pub proof fn only_the_challenged_are_listed(
    sessions: Map<Seq<u8>, Session>,
    ids: Seq<Seq<u8>>,
    id: Seq<u8>,
    i: int,
    j: int,
)
    requires
        are_challenged(sessions, ids),
    ensures
        0 <= i < ids.len() ==> sessions.contains_key(ids[i]) && sessions[ids[i]] !is Approved,
        0 <= i < j < ids.len() ==> ids[i] != ids[j],
        sessions.contains_key(id) && sessions[id] !is Approved ==> exists|k: int|
            0 <= k < ids.len() && #[trigger] ids[k] == id,
{
    if 0 <= i < ids.len() {
        assert(ids.contains(ids[i]));
    }
    if sessions.contains_key(id) && sessions[id] is Challenged {
        assert(ids.contains(id));
    }
}

} // verus!
