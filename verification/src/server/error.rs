//! What can go wrong, and how a client is told.
use vstd::prelude::*;

verus! {

/// An error of the server.
#[derive(Debug)]
pub enum WebshooterError {
    /// The path of the configuration cannot be used.
    InvalidConfigPath(String),
    /// The configuration at this path cannot be read, for this reason.
    InvalidConfig(String, String),
    NotChallenged,
    InvalidLogin,
    ChallengeFailed,
    NotAuthorized,
    IPCNotAvailable,
    NoAuthentication,
    Cancelled,
    InternalServerError,
}

/// The message of an error.
pub open spec fn error_message(e: WebshooterError) -> Seq<char> {
    match e {
        WebshooterError::InvalidConfigPath(path) => "The configuration path \""@ + path@
            + "\" is invalid"@,
        WebshooterError::InvalidConfig(path, reason) => "Failed to read configuration at \""@
            + path@ + "\". Error:\n"@ + reason@,
        WebshooterError::NotChallenged =>
        "You have not been challenged yet. Please call /login first, to recieve a challenge"@,
        WebshooterError::InvalidLogin =>
        "Login request lacks one of the following: verification key, challenge signature"@,
        WebshooterError::ChallengeFailed => "Challenge failed. Cannot authenticate"@,
        WebshooterError::NotAuthorized => "Cookie not permitted"@,
        WebshooterError::IPCNotAvailable =>
        "Webshooter isn't prepared to accept IPC connections yet"@,
        WebshooterError::NoAuthentication => "Missing authentication"@,
        WebshooterError::Cancelled => "Cancelled"@,
        WebshooterError::InternalServerError => "Internal server error"@,
    }
}

/// The HTTP status of an error.
pub open spec fn error_status(e: WebshooterError) -> u16 {
    match e {
        WebshooterError::NotChallenged => 403,
        WebshooterError::InvalidLogin => 400,
        WebshooterError::ChallengeFailed => 403,
        WebshooterError::NotAuthorized => 403,
        WebshooterError::NoAuthentication => 401,
        _ => 500,
    }
}

impl WebshooterError {
    /// The HTTP status of the error.
    pub fn status(&self) -> (code: u16)
        ensures
            code == error_status(*self),
    {
        match self {
            WebshooterError::NotChallenged => 403,
            WebshooterError::InvalidLogin => 400,
            WebshooterError::ChallengeFailed => 403,
            WebshooterError::NotAuthorized => 403,
            WebshooterError::NoAuthentication => 401,
            _ => 500,
        }
    }

    /// The message of the error.
    pub fn message(&self) -> (s: String)
        ensures
            s@ == error_message(*self),
    {
        match self {
            WebshooterError::InvalidConfigPath(path) => {
                let mut s = "The configuration path \"".to_owned();
                s.append(path.as_str());
                s.append("\" is invalid");
                s
            },
            WebshooterError::InvalidConfig(path, reason) => {
                let mut s = "Failed to read configuration at \"".to_owned();
                s.append(path.as_str());
                s.append("\". Error:\n");
                s.append(reason.as_str());
                s
            },
            WebshooterError::NotChallenged =>
            "You have not been challenged yet. Please call /login first, to recieve a challenge".to_owned(),
            WebshooterError::InvalidLogin =>
            "Login request lacks one of the following: verification key, challenge signature".to_owned(),
            WebshooterError::ChallengeFailed => "Challenge failed. Cannot authenticate".to_owned(),
            WebshooterError::NotAuthorized => "Cookie not permitted".to_owned(),
            WebshooterError::IPCNotAvailable =>
            "Webshooter isn't prepared to accept IPC connections yet".to_owned(),
            WebshooterError::NoAuthentication => "Missing authentication".to_owned(),
            WebshooterError::Cancelled => "Cancelled".to_owned(),
            WebshooterError::InternalServerError => "Internal server error".to_owned(),
        }
    }
}

/// Only client errors and server errors are reported: every status is between 400 and 599,
/// and 401 asks for authentication.
pub proof fn statuses_are_errors(e: WebshooterError)
    ensures
        400 <= error_status(e) < 600,
        error_status(e) == 401 <==> e is NoAuthentication,
{
}

/// Which status an error has: 400 what cannot be understood, 401 what lacks a proof of who asks,
/// 403 what is refused, and 500 what is nobody's fault but the server's.
pub proof fn errors_have_their_status(e: WebshooterError)
    ensures
        error_status(e) == 400 <==> e is InvalidLogin,
        error_status(e) == 401 <==> e is NoAuthentication,
        error_status(e) == 403 <==> e is NotChallenged || e is ChallengeFailed || e
            is NotAuthorized,
        error_status(e) == 500 <==> e is InvalidConfigPath || e is InvalidConfig || e
            is IPCNotAvailable || e is Cancelled || e is InternalServerError,
{
}

/// What is wrong with a configuration is said with its path in quotes and the reason behind it.
pub proof fn configuration_errors_name_their_path(path: String, reason: String)
    ensures
        crate::text::occurs(
            error_message(WebshooterError::InvalidConfigPath(path)),
            "\""@ + path@ + "\""@,
        ),
        crate::text::occurs(
            error_message(WebshooterError::InvalidConfig(path, reason)),
            "\""@ + path@ + "\""@,
        ),
        crate::text::ends(error_message(WebshooterError::InvalidConfig(path, reason)), reason@),
{
    reveal_strlit("\"");
    reveal_strlit("The configuration path \"");
    reveal_strlit("\" is invalid");
    reveal_strlit("Failed to read configuration at \"");
    reveal_strlit("\". Error:\n");
    let quoted = "\""@ + path@ + "\""@;
    let a = error_message(WebshooterError::InvalidConfigPath(path));
    let n = "The configuration path \""@.len() as int;
    assert(a.subrange(n - 1, n - 1 + quoted.len()) =~= quoted);
    assert(crate::text::occurs_at(a, quoted, n - 1));
    let b = error_message(WebshooterError::InvalidConfig(path, reason));
    let m = "Failed to read configuration at \""@.len() as int;
    assert(b.subrange(m - 1, m - 1 + quoted.len()) =~= quoted);
    assert(crate::text::occurs_at(b, quoted, m - 1));
    assert(b.subrange(b.len() - reason@.len(), b.len() as int) =~= reason@);
}

} // verus!
