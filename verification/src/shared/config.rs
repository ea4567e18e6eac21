//! The configuration that names its session length and may name an identity provider.
use crate::server::base64;
use crate::server::bytes::bytes_eq;
use crate::server::config::{join_path, InvalidBase64, IpAddress, NotAFile, DEFAULT_PORT, LOCALHOST};
use vstd::prelude::*;

verus! {

/// The error of a JSON parser.
#[verifier::external_type_specification]
#[verifier::external_body]
pub struct ExJsonError(serde_json::Error);

/// The text that a JSON document holds, where it is a single string, as
/// `serde_json::from_str` reads it.
pub uninterp spec fn json_string(document: Seq<char>) -> Option<Seq<char>>;

/// The text between quotes, where all of it is printable ASCII without quotes or backslashes.
pub open spec fn quoted_text(document: Seq<char>) -> Option<Seq<char>> {
    let n = document.len();
    if n >= 2 && document[0] == '"' && document[n - 1] == '"' && forall|i: int|
        0 < i < n - 1 ==> 0x20 <= (#[trigger] document[i]) as u32 <= 0x7e && document[i] != '"'
            && document[i] != '\\' {
        Some(document.subrange(1, n - 1))
    } else {
        None
    }
}

/// Calls [`serde_json::from_str`] for a string. The result is a function of the document, and
/// printable ASCII between quotes is read as it stands; the rest of the grammar of JSON is not
/// spelled out here.
#[verifier::external_body]
fn read_json_string(document: &str) -> (r: Result<String, serde_json::Error>)
    ensures
        (match r {
            Ok(s) => Some(s@),
            Err(_) => None,
        }) == json_string(document@),
        r is Ok || quoted_text(document@) is None,
        r matches Ok(s) ==> quoted_text(document@) is None || quoted_text(document@) == Some(s@),
{
    serde_json::from_str(document)
}

/// Bytes that are written in base64.
#[derive(Debug)]
pub struct Bytes64(Vec<u8>);

impl View for Bytes64 {
    type V = Seq<u8>;

    closed spec fn view(&self) -> Seq<u8> {
        self.0@
    }
}

impl PartialEq for Bytes64 {
    fn eq(&self, other: &Bytes64) -> (r: bool) {
        bytes_eq(self.0.as_slice(), other.0.as_slice())
    }
}

impl vstd::std_specs::cmp::PartialEqSpecImpl for Bytes64 {
    open spec fn obeys_eq_spec() -> bool {
        true
    }

    open spec fn eq_spec(&self, other: &Bytes64) -> bool {
        self@ == other@
    }
}

/// The bytes that a JSON document holds: a string in base64.
pub open spec fn json_bytes(document: Seq<char>) -> Option<Seq<u8>> {
    match json_string(document) {
        Some(text) => base64::unbase64(text),
        None => None,
    }
}

impl Bytes64 {
    /// These bytes.
    pub fn new(bytes: Vec<u8>) -> (r: Bytes64)
        ensures
            r@ == bytes@,
    {
        Bytes64(bytes)
    }

    /// The bytes of a text in base64.
    pub fn from_base64(text: &str) -> (r: Result<Bytes64, InvalidBase64>)
        ensures
            r is Ok == base64::unbase64(text@) is Some,
            r matches Ok(b) ==> base64::unbase64(text@) == Some(b@),
    {
        match base64::decode(text) {
            Some(bytes) => Ok(Bytes64(bytes)),
            None => Err(InvalidBase64),
        }
    }

    /// The bytes that a JSON document holds: a string in base64. What was written in base64,
    /// between quotes, is read back.
    pub fn from_str(document: &str) -> (r: Result<Bytes64, InvalidBase64>)
        ensures
            r is Ok == json_bytes(document@) is Some,
            r matches Ok(b) ==> json_bytes(document@) == Some(b@),
            forall|bytes: Seq<u8>|
                document@ == seq!['"'] + #[trigger] base64::base64(bytes) + seq!['"'] ==> (r matches Ok(
                    b,
                ) && b@ == bytes),
    {
        proof {
            assert forall|bytes: Seq<u8>|
                document@ == seq!['"'] + #[trigger] base64::base64(bytes) + seq![
                    '"',
                ] implies quoted_text(document@) == Some(base64::base64(bytes))
                && base64::unbase64(base64::base64(bytes)) == Some(bytes) by {
                let text = base64::base64(bytes);
                base64::base64_is_plain(bytes);
                base64::base64_reads_back(bytes);
                assert forall|i: int| 0 < i < document@.len() - 1 implies base64::is_plain(
                    #[trigger] document@[i],
                ) by {
                    assert(document@[i] == text[i - 1]);
                }
                assert(document@.subrange(1, document@.len() - 1) =~= text);
            }
        }
        match read_json_string(document) {
            Ok(text) => Bytes64::from_base64(text.as_str()),
            Err(_) => Err(InvalidBase64),
        }
    }

    /// The bytes in base64.
    pub fn to_string(&self) -> (s: String)
        ensures
            s@ == base64::base64(self@),
    {
        base64::encode(self.0.as_slice())
    }

    /// The bytes.
    pub fn as_slice(&self) -> (r: &[u8])
        ensures
            r@ == self@,
    {
        self.0.as_slice()
    }

    /// The bytes themselves.
    pub fn into_vec(self) -> (v: Vec<u8>)
        ensures
            v@ == self@,
    {
        self.0
    }
}

/// Where the key and the certificate of the server are.
#[derive(Debug)]
pub struct SslConfig {
    pub key: String,
    pub certificate: String,
}

/// Where the server listens.
#[derive(Debug)]
pub struct HttpConfig {
    pub host: IpAddress,
    pub port: u16,
    pub ssl_conf: SslConfig,
}

/// An identity provider.
#[derive(Debug)]
pub struct OidcData {
    pub client_id: String,
    pub auth_url: String,
    pub token_url: String,
}

/// How long a session lasts where the configuration says nothing, in seconds: a day.
pub const DEFAULT_SESSION_TTL: u64 = 86400;

/// How long a session lasts where the configuration says nothing, in seconds.
pub fn default_session_ttl() -> (secs: u64)
    ensures
        secs == DEFAULT_SESSION_TTL,
        secs == 24 * 60 * 60,
{
    DEFAULT_SESSION_TTL
}

/// Whether a session length is the one that need not be written down.
pub fn is_default_session_ttl(secs: u64) -> (r: bool)
    ensures
        r == (secs == DEFAULT_SESSION_TTL),
{
    secs == DEFAULT_SESSION_TTL
}

/// The configuration.
#[derive(Debug)]
pub struct Config {
    pub version: String,
    pub authorised_keys: Vec<Bytes64>,
    pub http_config: HttpConfig,
    pub oidc: Option<OidcData>,
    /// How long a login waits for its authorisation, in seconds.
    pub auth_timeout: Option<u64>,
    /// How long a session lasts, in seconds.
    pub session_ttl: u64,
}

impl Config {
    /// The configuration to begin with. It is kept in `path` itself where that is a
    /// directory, else in the directory that `path` lies in.
    pub fn initialise_at(
        path: &str,
        is_dir: bool,
        parent: Option<&str>,
        version: &str,
    ) -> (r: Result<Config, NotAFile>)
        ensures
            r is Ok == (is_dir || parent is Some),
            r matches Ok(c) ==> {
                let directory = if is_dir {
                    path@
                } else {
                    parent->0@
                };
                &&& c.version@ == version@
                &&& c.authorised_keys@.len() == 0
                &&& c.http_config.host == IpAddress::V4(LOCALHOST)
                &&& c.http_config.port == DEFAULT_PORT
                &&& c.http_config.ssl_conf.key@ == crate::server::config::file_in(
                    directory,
                    "server.key"@,
                )
                &&& c.http_config.ssl_conf.certificate@ == crate::server::config::file_in(
                    directory,
                    "server.crt"@,
                )
                &&& c.oidc is None
                &&& c.auth_timeout is None
                &&& c.session_ttl == DEFAULT_SESSION_TTL
            },
            r matches Ok(c) ==> c.http_config.host == IpAddress::V4(2130706433)
                && c.http_config.port == 443 && c.session_ttl == 86400,
    {
        let directory = if is_dir {
            path
        } else {
            match parent {
                Some(parent) => parent,
                None => {
                    return Err(NotAFile);
                },
            }
        };
        Ok(
            Config {
                version: version.to_owned(),
                authorised_keys: Vec::new(),
                http_config: HttpConfig {
                    host: IpAddress::V4(LOCALHOST),
                    port: DEFAULT_PORT,
                    ssl_conf: SslConfig {
                        key: join_path(directory, "server.key"),
                        certificate: join_path(directory, "server.crt"),
                    },
                },
                oidc: None,
                auth_timeout: None,
                session_ttl: default_session_ttl(),
            },
        )
    }
}

} // verus!
