//! Logging in.
use ecdsa::signature::Signer;
use p384::ecdsa::{Signature, SigningKey};
use p384::pkcs8::EncodePublicKey;
use webshooter::server::auth::{
    auth_timeout_secs, authorisation_step, can_show_names, check_identity, client_ip,
    cookie_header, format_id, forwarded_for, identity, login, login_gate, login_rejection, rate_limit,
    rate_limit_rejection, AuthSessions, Authorisation, LoginError, LoginGate, LoginParams,
    OnetimeToken, OnetimeTokens, RateLimits, WaitOutcome, WtRefusal,
};
use webshooter::server::config::{AuthorisedKeys, Bytes64, IpAddress};
use webshooter::server::error::WebshooterError;
use webshooter::server::id_table::IdTable;
use webshooter::server::ipc::IPCMessage;
use webshooter::server::session;
use webshooter::shared::config::Bytes64 as SharedBytes;
use webshooter::web::transport::session_url;

const SECOND: u64 = 1_000_000_000;

fn key(seed: u8) -> (SigningKey, Vec<u8>) {
    let key = SigningKey::from_slice(&[seed; 48]).unwrap();
    let der = key.verifying_key().to_public_key_der().unwrap();
    (key, der.as_bytes().to_vec())
}

fn sign(key: &SigningKey, message: &[u8]) -> Vec<u8> {
    let signature: Signature = key.sign(message);
    signature.to_bytes().to_vec()
}

fn params(id: &[u8], signature: &[u8]) -> LoginParams {
    LoginParams::Signature {
        id: Bytes64(id.to_vec()),
        signature: Bytes64(signature.to_vec()),
    }
}

#[test]
fn a_signed_challenge_logs_in() {
    let (signing, id) = key(7);
    let mut sessions = AuthSessions::new();
    let mut keys = AuthorisedKeys::new();
    let challenge = sessions.get_challenge(Bytes64(id.clone()));
    assert_eq!(challenge.len(), 256);
    assert_eq!(sessions.get_challenged_sessions(), vec![id.clone()]);
    let signature = sign(&signing, &challenge);
    let cookie = sessions
        .login_inner(&mut keys, params(&id, &signature), WaitOutcome::Granted, 5)
        .ok()
        .unwrap();
    assert_eq!(cookie.0.len(), 1024);
    assert!(cookie.0.iter().any(|b| *b != 0));
    assert!(keys.contains(&id));
    assert!(sessions.get_challenged_sessions().is_empty());

    let header = cookie_header(&cookie);
    assert!(header.starts_with("token=") && header.ends_with("; HttpOnly; Secure; SameSite=Strict"));
    let cookies = vec!["lang=en".to_string(), format!("token={}", cookie.to_string())];
    assert_eq!(sessions.authenticate(&cookies, 5).ok().unwrap().id.0, id);
    let day = 86_400 * SECOND;
    assert!(sessions.authenticate(&cookies, 5 + day).is_ok());
    assert!(matches!(
        sessions.authenticate(&cookies, 6 + day),
        Err(WebshooterError::NotAuthorized)
    ));
    assert!(matches!(
        sessions.authenticate(&vec!["token".to_string()], 5),
        Err(WebshooterError::NoAuthentication)
    ));

    let again = sessions.login_inner(&mut keys, params(&id, &signature), WaitOutcome::Granted, 6);
    assert!(matches!(again, Err(LoginError::Refused(WebshooterError::NotChallenged))));
    sessions.get_challenge(Bytes64(id));
    assert!(sessions.authenticate(&cookies, 5).is_err());
}

#[test]
fn challenges_differ() {
    let mut sessions = AuthSessions::new();
    let a = sessions.get_challenge(Bytes64(vec![1]));
    let b = sessions.get_challenge(Bytes64(vec![2]));
    assert_ne!(a, b);
    let mut ids = sessions.get_challenged_sessions();
    ids.sort();
    assert_eq!(ids, vec![vec![1], vec![2]]);
}

#[test]
fn logins_are_refused_for_their_reasons() {
    let (signing, id) = key(9);
    let (other, _) = key(10);
    let mut sessions = AuthSessions::new();
    let mut keys = AuthorisedKeys::new();
    let mut attempt = |sessions: &mut AuthSessions, params, wait| {
        sessions.login_inner(&mut keys, params, wait, 0).err().unwrap()
    };
    let only = LoginParams::IdOnly { id: Bytes64(id.clone()) };
    assert!(matches!(
        attempt(&mut sessions, only, WaitOutcome::Granted),
        LoginError::Refused(WebshooterError::InvalidLogin)
    ));
    assert!(matches!(
        attempt(&mut sessions, params(&id, &[1; 96]), WaitOutcome::Granted),
        LoginError::Refused(WebshooterError::NotChallenged)
    ));
    let challenge = sessions.get_challenge(Bytes64(id.clone()));
    assert!(matches!(
        attempt(&mut sessions, params(&id, &sign(&signing, &challenge)), WaitOutcome::TimedOut),
        LoginError::TimedOut
    ));
    assert!(matches!(
        attempt(
            &mut sessions,
            params(&id, &sign(&signing, &challenge)),
            WaitOutcome::Failed("gone".to_string())
        ),
        LoginError::Failed(reason) if reason == "gone"
    ));
    assert!(matches!(
        attempt(&mut sessions, params(&id, &[1; 95]), WaitOutcome::Granted),
        LoginError::Refused(WebshooterError::InvalidLogin)
    ));
    assert!(matches!(
        attempt(&mut sessions, params(&id, &[0; 96]), WaitOutcome::Granted),
        LoginError::Refused(WebshooterError::InvalidLogin)
    ));
    assert!(matches!(
        attempt(&mut sessions, params(&id, &[0xff; 96]), WaitOutcome::Granted),
        LoginError::Refused(WebshooterError::InvalidLogin)
    ));
    assert!(matches!(
        attempt(&mut sessions, params(&id, &sign(&other, &challenge)), WaitOutcome::Granted),
        LoginError::Refused(WebshooterError::ChallengeFailed)
    ));
    assert!(matches!(
        attempt(&mut sessions, params(&id, &sign(&signing, b"other")), WaitOutcome::Granted),
        LoginError::Refused(WebshooterError::ChallengeFailed)
    ));
    sessions.get_challenge(Bytes64(vec![1, 2, 3]));
    assert!(matches!(
        attempt(&mut sessions, params(&[1, 2, 3], &[1; 96]), WaitOutcome::Granted),
        LoginError::Refused(WebshooterError::InvalidLogin)
    ));
}

#[test]
fn signatures_have_a_range() {
    let order = [
        0xff, 0xff, 0xff, 0xff, 0xff, 0xff, 0xff, 0xff, 0xff, 0xff, 0xff, 0xff, 0xff, 0xff, 0xff,
        0xff, 0xff, 0xff, 0xff, 0xff, 0xff, 0xff, 0xff, 0xff, 0xc7, 0x63, 0x4d, 0x81, 0xf4, 0x37,
        0x2d, 0xdf, 0x58, 0x1a, 0x0d, 0xb2, 0x48, 0xb0, 0xa7, 0x7a, 0xec, 0xec, 0x19, 0x6a, 0xcc,
        0xc5, 0x29, 0x73u8,
    ];
    let mut last = order;
    last[47] -= 1;
    let (_, id) = key(3);
    let mut sessions = AuthSessions::new();
    sessions.get_challenge(Bytes64(id.clone()));
    let refused = |r: &[u8], s: &[u8]| {
        matches!(
            sessions.verify_login(&params(&id, &[r, s].concat())),
            Err(WebshooterError::InvalidLogin)
        )
    };
    let one = {
        let mut one = [0u8; 48];
        one[47] = 1;
        one
    };
    assert!(!refused(&one, &one));
    assert!(!refused(&last, &last));
    assert!(refused(&order, &one));
    assert!(refused(&one, &order));
    assert!(refused(&one, &[0; 48]));
}

#[test]
fn known_keys_need_no_authorisation() {
    let (signing, id) = key(4);
    let mut sessions = AuthSessions::new();
    let mut keys = AuthorisedKeys::new();
    let challenge = sessions.get_challenge(Bytes64(id.clone()));
    let signature = sign(&signing, &challenge);
    assert!(matches!(
        login_gate(&keys, &params(&id, &signature)),
        Ok(LoginGate::NeedsAuthorisation)
    ));
    keys.insert(Bytes64(id.clone()));
    keys.insert(Bytes64(id.clone()));
    assert_eq!(keys.len(), 1);
    assert_eq!(keys.to_vec()[0].0, id);
    assert!(matches!(login_gate(&keys, &params(&id, &signature)), Ok(LoginGate::Open)));
    assert!(matches!(
        login_gate(&keys, &LoginParams::IdOnly { id: Bytes64(id.clone()) }),
        Err(WebshooterError::InvalidLogin)
    ));
    assert!(check_identity(&keys, &Bytes64(id.clone())).is_ok());
    assert!(matches!(
        check_identity(&keys, &Bytes64(id[..id.len() - 1].to_vec())),
        Err(WebshooterError::NotAuthorized)
    ));
    assert!(sessions
        .login_inner(&mut keys, params(&id, &signature), WaitOutcome::TimedOut, 0)
        .is_ok());
}

#[test]
fn identities_are_base64() {
    assert_eq!(identity(Some("AQID")).ok().unwrap().0, vec![1, 2, 3]);
    assert!(matches!(identity(Some("AQ")), Err(WebshooterError::NoAuthentication)));
    assert!(matches!(identity(None), Err(WebshooterError::NoAuthentication)));
}

#[test]
fn base64_takes_padded_blocks() {
    let read = |s: &str| Bytes64::from_str(s).ok().map(|b| b.0);
    assert_eq!(read("SGVsbA==byB3b3JsZA=="), Some(b"Hello world".to_vec()));
    assert_eq!(read(""), Some(vec![]));
    assert_eq!(read("AB=="), None);
    assert_eq!(read("A==="), None);
    assert_eq!(read("A=A="), None);
    assert_eq!(read("AAA"), None);
    assert_eq!(read("AA\u{e9}A"), None);
    assert_eq!(read("+/+/"), Some(vec![0xfb, 0xff, 0xbf]));
    assert_eq!(Bytes64(vec![0xfb, 0xff, 0xbf, 1]).to_string(), "+/+/AQ==");
    for n in 0..40u8 {
        let bytes = Bytes64((0..n).collect());
        assert_eq!(read(&bytes.to_string()), Some(bytes.0));
    }
    assert!(Bytes64(vec![1, 2]) == Bytes64(vec![1]));
    assert!(Bytes64(vec![1, 2]) != Bytes64(vec![1, 3]));
}

#[test]
fn failures_use_up_the_limit() {
    let mut limits = RateLimits::new();
    let ip = IpAddress::V4(1);
    for i in 0..3 {
        assert!(limits.check_rate_limit(ip, 3, i * SECOND));
        assert!(limits.can_record(ip, i * SECOND));
        limits.record_rate_limit_failure(ip, i * SECOND);
    }
    assert!(!limits.check_rate_limit(ip, 3, 60 * SECOND));
    assert!(limits.check_rate_limit(ip, 4, 60 * SECOND));
    assert!(limits.check_rate_limit(IpAddress::V6(1), 3, 60 * SECOND));
    assert!(limits.check_rate_limit(ip, 3, 60 * SECOND + 1));
    limits.settle(ip, false, 61 * SECOND);
    assert!(!limits.check_rate_limit(ip, 1, 62 * SECOND));
    limits.settle(ip, true, 62 * SECOND);
    assert!(limits.check_rate_limit(ip, 1, 62 * SECOND));
    limits.record_rate_limit_failure(IpAddress::V6(9), 0);
    assert!(!limits.check_rate_limit(IpAddress::V6(9), 1, 0));
    limits.reset_rate_limit(IpAddress::V6(9));
    assert!(limits.check_rate_limit(IpAddress::V6(9), 1, 0));
    assert_eq!(rate_limit(None), 10);
    assert_eq!(rate_limit(Some(3)), 3);
    assert_eq!(auth_timeout_secs(None), 30);
    assert_eq!(auth_timeout_secs(Some(5)), 5);
}

#[test]
fn rejections_say_why() {
    let r = rate_limit_rejection();
    assert_eq!((r.status, r.message.as_str()), (429, "Rate limit exceeded"));
    let r = login_rejection(LoginError::TimedOut);
    assert_eq!(
        (r.status, r.message.as_str()),
        (403, "Did not authorise within deadline has elapsed")
    );
    let r = login_rejection(LoginError::Failed("x".to_string()));
    assert_eq!((r.status, r.message.as_str()), (500, "x"));
    let r = login_rejection(LoginError::Refused(WebshooterError::ChallengeFailed));
    assert_eq!((r.status, r.message.as_str()), (403, "Challenge failed. Cannot authenticate"));
}

#[test]
fn errors_have_their_status() {
    let errors = vec![
        (
            WebshooterError::InvalidConfigPath("/x".to_string()),
            500,
            "The configuration path \"/x\" is invalid",
        ),
        (
            WebshooterError::InvalidConfig("/x".to_string(), "bad".to_string()),
            500,
            "Failed to read configuration at \"/x\". Error:\nbad",
        ),
        (
            WebshooterError::NotChallenged,
            403,
            "You have not been challenged yet. Please call /login first, to recieve a challenge",
        ),
        (
            WebshooterError::InvalidLogin,
            400,
            "Login request lacks one of the following: verification key, challenge signature",
        ),
        (WebshooterError::ChallengeFailed, 403, "Challenge failed. Cannot authenticate"),
        (WebshooterError::NotAuthorized, 403, "Cookie not permitted"),
        (
            WebshooterError::IPCNotAvailable,
            500,
            "Webshooter isn't prepared to accept IPC connections yet",
        ),
        (WebshooterError::NoAuthentication, 401, "Missing authentication"),
        (WebshooterError::Cancelled, 500, "Cancelled"),
        (WebshooterError::InternalServerError, 500, "Internal server error"),
    ];
    for (error, status, message) in errors {
        assert_eq!(error.status(), status);
        assert_eq!(error.message(), message);
    }
}

#[test]
fn the_client_is_found_behind_a_proxy() {
    assert_eq!(forwarded_for(" 1.2.3.4 , 5.6.7.8"), "1.2.3.4");
    assert_eq!(forwarded_for("1.2.3.4"), "1.2.3.4");
    let (a, b, c) = (IpAddress::V4(1), IpAddress::V4(2), IpAddress::V6(3));
    assert_eq!(client_ip(Some(a), Some(b), Some(c)), a);
    assert_eq!(client_ip(None, Some(b), Some(c)), b);
    assert_eq!(client_ip(None, None, Some(c)), c);
    assert_eq!(client_ip(None, None, None), IpAddress::V4(0));
}

#[test]
fn the_user_lets_a_login_in() {
    let a: Vec<u8> = (0..40).collect();
    let b: Vec<u8> = (1..41).collect();
    assert_eq!(format_id(&a), "GBkaGxwdHh8");
    let one = vec![a.clone()];
    let two = vec![a.clone(), b.clone()];
    let granted = |message, sessions: &Vec<Vec<u8>>| match authorisation_step(message, &a, sessions) {
        Authorisation::Granted(s) => s,
        _ => panic!("not granted"),
    };
    assert_eq!(granted(IPCMessage::Authorise(None), &one), "Authorised GBkaGxwdHh8");
    assert_eq!(granted(IPCMessage::Authorise(Some(0)), &two), "Authorised GBkaGxwdHh8");
    assert!(matches!(
        authorisation_step(IPCMessage::Authorise(Some(1)), &a, &two),
        Authorisation::Yield
    ));
    assert!(matches!(
        authorisation_step(IPCMessage::Authorise(Some(2)), &a, &two),
        Authorisation::Yield
    ));
    assert!(matches!(
        authorisation_step(IPCMessage::Authorise(None), &a, &two),
        Authorisation::Reply(s) if s == "Please select a session:\n0: GBkaGxwdHh8\n1: GRobHB0eHyA"
    ));
    assert!(matches!(
        authorisation_step(IPCMessage::Deauthorise(Some(1)), &a, &two),
        Authorisation::Reply(s)
            if s == format!("Invalid message: {:#?}", IPCMessage::Deauthorise(Some(1)))
    ));
    let short = vec![a.clone(), vec![0; 31]];
    assert!(can_show_names(IPCMessage::Authorise(None), &a, &two));
    assert!(!can_show_names(IPCMessage::Authorise(None), &a, &short));
    assert!(can_show_names(IPCMessage::Authorise(None), &a, &vec![vec![0; 31]]));
    assert!(!can_show_names(IPCMessage::Authorise(None), &[0; 31], &one));
    assert!(can_show_names(IPCMessage::Authorise(Some(1)), &a, &short));
    assert!(!can_show_names(IPCMessage::Authorise(Some(1)), &[0; 40], &short));
    assert!(can_show_names(IPCMessage::Exit, &[], &short));
}

#[test]
fn tokens_are_used_once() {
    let mut tokens = OnetimeTokens::new();
    let token = tokens.issue(&[1, 2]);
    let url = session_url("/session", &token.to_string());
    assert!(url.starts_with("/session?token="));
    assert_eq!(tokens.webtransport_auth(&url), Ok(vec![1, 2]));
    assert_eq!(tokens.webtransport_auth(&url), Err(WtRefusal::NotAuthorized));
    let token = tokens.issue(&[3]);
    let other = tokens.issue(&[4]);
    let path = format!("/x?a=1&token={}&b", token.to_string());
    assert_eq!(tokens.webtransport_auth(&path), Ok(vec![3]));
    // Only the first bytes count.
    let mut longer = Bytes64::from_str(&other.to_string()).ok().unwrap().0;
    longer.push(9);
    let path = format!("/x?token={}", Bytes64(longer).to_string());
    assert_eq!(tokens.webtransport_auth(&path), Ok(vec![4]));
    let token = tokens.issue(&[5]);
    assert_eq!(tokens.redeem(&token), Some(vec![5]));
    assert_eq!(tokens.redeem(&token), None);
    let token = tokens.issue(&[]);
    assert!(tokens.check(&token));
    assert!(!tokens.check(&token));
}

#[test]
fn bad_tokens_are_refused() {
    let mut tokens = OnetimeTokens::new();
    let token = tokens.issue(&[1]);
    assert_eq!(tokens.webtransport_auth("/x"), Err(WtRefusal::NoAuthentication));
    assert_eq!(tokens.webtransport_auth("/x?tok=1"), Err(WtRefusal::NoAuthentication));
    assert_eq!(tokens.webtransport_auth("/x?token=!"), Err(WtRefusal::InvalidBase64));
    assert_eq!(tokens.webtransport_auth("/x?token=AQID"), Err(WtRefusal::InvalidLogin));
    let mut bytes = Bytes64::from_str(&token.to_string()).ok().unwrap().0;
    bytes[255] ^= 1;
    let other = Bytes64(bytes).to_string();
    assert_eq!(
        tokens.webtransport_auth(&format!("/x?token={other}")),
        Err(WtRefusal::NotAuthorized)
    );
    assert!(matches!(
        OnetimeToken::try_from(&Bytes64(vec![0; 255])),
        Err(WebshooterError::InvalidLogin)
    ));
    let long = OnetimeToken::try_from(&Bytes64((0..300).map(|n| n as u8).collect())).ok().unwrap();
    assert_eq!(long.to_string(), Bytes64((0..=255).collect()).to_string());
}

#[test]
fn sessions_without_age_log_in() {
    let (signing, id) = key(11);
    let mut sessions: IdTable<session::Session> = IdTable::new();
    let keys = vec![SharedBytes::new(id.clone())];
    let challenge = session::challenge(&mut sessions, SharedBytes::new(id.clone()));
    assert_eq!(challenge.len(), 256);
    assert_eq!(session::challenged_ids(&sessions), vec![id.clone()]);
    let login = |signature: &[u8]| session::LoginParams::Signature {
        id: SharedBytes::new(id.clone()),
        signature: SharedBytes::new(signature.to_vec()),
    };
    let signature = sign(&signing, &challenge);
    assert!(matches!(
        session::login_gate(false, &keys, &login(&signature)),
        Ok(LoginGate::Open)
    ));
    let cookie = session::login(
        &mut sessions,
        false,
        &keys,
        login(&signature),
        WaitOutcome::TimedOut,
        30,
    )
    .ok()
    .unwrap();
    assert_eq!(
        session::auth_validation(&sessions, &cookie).unwrap(),
        cookie.as_slice().to_vec()
    );
    let again =
        session::login(&mut sessions, false, &keys, login(&signature), WaitOutcome::Granted, 30);
    assert!(matches!(
        again,
        Err(session::LoginError::Refused(WebshooterError::NotChallenged))
    ));
    assert!(session::auth_validation(&sessions, &cookie).is_ok());
    assert_eq!(
        session::auth_validation(&sessions, &SharedBytes::new(vec![1])),
        Err(session::Unauthorized)
    );
    let short = SharedBytes::new(vec![1, 2, 3]);
    assert_eq!(
        session::cookie_header(&short, 60),
        "token=AQID; HttpOnly; SameSite=Strict; Max-Age=60"
    );
    assert_eq!(session::authenticated_text(&[1, 2, 3]), "Authenticated as AQID");
}

#[test]
fn sessions_without_age_refuse_logins() {
    let (signing, id) = key(12);
    let mut sessions: IdTable<session::Session> = IdTable::new();
    let none: Vec<SharedBytes> = vec![];
    let login = |id: &[u8], signature: &[u8]| session::LoginParams::Signature {
        id: SharedBytes::new(id.to_vec()),
        signature: SharedBytes::new(signature.to_vec()),
    };
    let mut refused = |sessions: &mut IdTable<session::Session>, oidc, params, wait| {
        let error = session::login(sessions, oidc, &none, params, wait, 30).err().unwrap();
        let answer = session::login_rejection(error);
        assert_eq!(answer.status, 500);
        answer.message
    };
    let only = || session::LoginParams::IdOnly { id: SharedBytes::new(id.clone()) };
    assert_eq!(
        refused(&mut sessions, true, only(), WaitOutcome::Granted),
        "OIDC not yet supported."
    );
    assert_eq!(
        refused(&mut sessions, false, only(), WaitOutcome::Granted),
        WebshooterError::InvalidLogin.message()
    );
    assert_eq!(
        refused(&mut sessions, false, login(&id, &[1; 96]), WaitOutcome::TimedOut),
        "Did not get authorised within 30 seconds, rejecting connection"
    );
    let gone = WaitOutcome::Failed("gone".to_string());
    assert_eq!(refused(&mut sessions, false, login(&id, &[1; 96]), gone), "gone");
    assert_eq!(
        refused(&mut sessions, false, login(&id, &[1; 96]), WaitOutcome::Granted),
        WebshooterError::NotChallenged.message()
    );
    let challenge = session::challenge(&mut sessions, SharedBytes::new(id.clone()));
    assert_eq!(
        refused(&mut sessions, false, login(&id, &[1; 95]), WaitOutcome::Granted),
        "signature error"
    );
    let wrong = sign(&signing, &challenge[1..]);
    assert_eq!(
        refused(&mut sessions, false, login(&id, &wrong), WaitOutcome::Granted),
        WebshooterError::ChallengeFailed.message()
    );
    session::challenge(&mut sessions, SharedBytes::new(vec![0x30, 0]));
    let words = refused(&mut sessions, false, login(&[0x30, 0], &[1; 96]), WaitOutcome::Granted);
    assert!(words.starts_with("ASN.1 error: "), "{words}");
}

#[test]
fn challenged_sessions_are_sorted() {
    let mut sessions: IdTable<session::Session> = IdTable::new();
    for id in [vec![2u8], vec![1, 9], vec![1], vec![3]] {
        session::challenge(&mut sessions, SharedBytes::new(id));
    }
    sessions.insert(vec![3], session::Session::Approved { cookie: vec![] });
    assert_eq!(session::challenged_ids(&sessions), vec![vec![1], vec![1, 9], vec![2]]);
    assert_eq!(
        session::sort_ids(vec![vec![1], vec![0], vec![1]]),
        vec![vec![0], vec![1], vec![1]]
    );
    let a = vec![1u8, 2, 3];
    let sessions = vec![vec![0u8], a.clone()];
    assert!(matches!(
        session::authorisation_step(IPCMessage::Authorise(None), &a, &sessions),
        Authorisation::Reply(s) if s == "Please select a session:\n0: AA==\n1: AQID"
    ));
    assert!(matches!(
        session::authorisation_step(IPCMessage::Authorise(Some(1)), &a, &sessions),
        Authorisation::Granted(s) if s == "Authorised AQID"
    ));
    assert!(matches!(
        session::authorisation_step(IPCMessage::Exit, &a, &sessions),
        Authorisation::Reply(s) if s == "Invalid message: Exit"
    ));
}

#[test]
fn logins_are_limited_before_they_are_tried() {
    let (signing, id) = key(11);
    let mut limits = RateLimits::new();
    let mut sessions = AuthSessions::new();
    let mut keys = AuthorisedKeys::new();
    let ip = IpAddress::V4(1);
    let challenge = sessions.get_challenge(Bytes64(id.clone()));
    let signature = sign(&signing, &challenge);
    let mut attempt = |ip, signature: &[u8], at: u64| {
        login(
            &mut limits,
            &mut sessions,
            &mut keys,
            ip,
            Some(2),
            params(&id, signature),
            WaitOutcome::Granted,
            at,
            at,
        )
        .map_err(|r| (r.status, r.message))
    };
    assert_eq!(attempt(ip, &[1; 95], 0).unwrap_err().0, 400);
    assert_eq!(attempt(ip, &[1; 95], SECOND).unwrap_err().0, 400);
    // The right signature is not even looked at.
    let limited = (429, "Rate limit exceeded".to_string());
    assert_eq!(attempt(ip, &signature, 2 * SECOND).unwrap_err(), limited);
    let cookie = attempt(IpAddress::V4(2), &signature, 2 * SECOND).unwrap();
    assert!(cookie.starts_with("token=") && cookie.ends_with("; SameSite=Strict"));
    assert_eq!(attempt(ip, &signature, 60 * SECOND).unwrap_err(), limited);
    assert_eq!(attempt(ip, &signature, 60 * SECOND + 1).unwrap_err().0, 403);

    let admission = limits.begin_login(ip, None, 61 * SECOND).ok().unwrap();
    assert!(limits.can_end_login(&admission, false, 61 * SECOND));
    assert!(limits.end_login(admission, Ok(Bytes64(vec![1])), 61 * SECOND).is_ok());
    assert!(limits.check_rate_limit(ip, 1, 61 * SECOND));
    let admission = limits.begin_login(ip, Some(1), 61 * SECOND).ok().unwrap();
    let refused = limits.end_login(admission, Err(LoginError::TimedOut), 61 * SECOND);
    assert_eq!(refused.err().unwrap().status, 403);
    assert_eq!(limits.begin_login(ip, Some(1), 62 * SECOND).err().unwrap().status, 429);
}
