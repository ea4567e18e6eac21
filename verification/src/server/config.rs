//! The configuration of the server.
use super::base64;
use super::bytes::{bytes_agree, bytes_eq};
use vstd::prelude::*;

verus! {

/// Why a text is not the base64 of any bytes.
#[derive(Debug, Clone, Copy, PartialEq, Eq, Structural)]
pub struct InvalidBase64;

/// Bytes that are written in base64.
#[derive(Debug)]
pub struct Bytes64(pub Vec<u8>);

impl View for Bytes64 {
    type V = Seq<u8>;

    open spec fn view(&self) -> Seq<u8> {
        self.0@
    }
}

/// Two rows of bytes count as equal when they agree as far as both go.
impl PartialEq for Bytes64 {
    fn eq(&self, other: &Bytes64) -> (r: bool) {
        bytes_agree(self.0.as_slice(), other.0.as_slice())
    }
}

impl vstd::std_specs::cmp::PartialEqSpecImpl for Bytes64 {
    open spec fn obeys_eq_spec() -> bool {
        true
    }

    open spec fn eq_spec(&self, other: &Bytes64) -> bool {
        super::bytes::agree(self@, other@)
    }
}

impl Bytes64 {
    /// The bytes that a text in base64 stands for.
    pub fn from_str(s: &str) -> (r: Result<Bytes64, InvalidBase64>)
        ensures
            r is Ok == base64::unbase64(s@) is Some,
            r matches Ok(b) ==> base64::unbase64(s@) == Some(b@),
    {
        match base64::decode(s) {
            Some(bytes) => Ok(Bytes64(bytes)),
            None => Err(InvalidBase64),
        }
    }

    /// The bytes in base64.
    pub fn to_string(&self) -> (s: String)
        ensures
            s@ == base64::base64(self@),
    {
        base64::encode(self.0.as_slice())
    }

    /// The bytes themselves.
    pub fn into_vec(self) -> (v: Vec<u8>)
        ensures
            v@ == self@,
    {
        self.0
    }

    /// A copy.
    pub fn duplicate(&self) -> (r: Bytes64)
        ensures
            r@ == self@,
    {
        let copy = vstd::slice::slice_to_vec(self.0.as_slice());
        assert(copy@ =~= self@);
        Bytes64(copy)
    }
}

/// Equality of a row of bytes with itself, and its symmetry.
pub proof fn bytes64_equality(a: Bytes64, b: Bytes64)
    ensures
        super::bytes::agree(a@, a@),
        super::bytes::agree(a@, b@) == super::bytes::agree(b@, a@),
        a@.len() == b@.len() ==> (super::bytes::agree(a@, b@) <==> a@ == b@),
{
    if super::bytes::agree(a@, b@) {
        assert(forall|i: int| 0 <= i < b@.len() && i < a@.len() ==> #[trigger] b@[i] == a@[i]) by {
            assert forall|i: int| 0 <= i < b@.len() && i < a@.len() implies #[trigger] b@[i]
                == a@[i] by {
                assert(a@[i] == b@[i]);
            }
        }
        if a@.len() == b@.len() {
            assert(a@ =~= b@);
        }
    }
    if super::bytes::agree(b@, a@) {
        assert forall|i: int| 0 <= i < a@.len() && i < b@.len() implies #[trigger] a@[i] == b@[i] by {
            assert(b@[i] == a@[i]);
        }
    }
}

/// An internet address, by its number.
#[derive(Debug, Clone, Copy, PartialEq, Eq, Structural)]
pub enum IpAddress {
    V4(u32),
    V6(u128),
}

/// 127.0.0.1.
pub const LOCALHOST: u32 = 0x7f000001;

/// The port where the configuration names none.
pub const DEFAULT_PORT: u16 = 443;

/// Where the key and the certificate of the server are.
#[derive(Debug)]
pub struct SslConfig {
    pub key: String,
    pub certificate: String,
}

/// Where the server listens.
#[derive(Debug)]
pub struct HttpConfig {
    pub host: IpAddress,
    pub port: u16,
    pub ssl_conf: SslConfig,
}

/// The keys that may log in. No key occurs twice.
#[derive(Debug)]
pub struct AuthorisedKeys {
    keys: Vec<Bytes64>,
}

pub open spec fn key_views(keys: Seq<Bytes64>) -> Seq<Seq<u8>> {
    keys.map_values(|k: Bytes64| k@)
}

impl View for AuthorisedKeys {
    type V = Set<Seq<u8>>;

    closed spec fn view(&self) -> Set<Seq<u8>> {
        key_views(self.keys@).to_set()
    }
}

impl AuthorisedKeys {
    /// No key occurs twice.
    pub closed spec fn well_formed(self) -> bool {
        key_views(self.keys@).no_duplicates()
    }

    /// No keys.
    pub fn new() -> (k: AuthorisedKeys)
        ensures
            k.well_formed(),
            k@ == Set::<Seq<u8>>::empty(),
    {
        let k = AuthorisedKeys { keys: Vec::new() };
        assert(k@ =~= Set::<Seq<u8>>::empty());
        k
    }

    /// Whether a key is among them.
    pub fn contains(&self, key: &[u8]) -> (r: bool)
        ensures
            r == self@.contains(key@),
    {
        let mut i: usize = 0;
        while i < self.keys.len()
            invariant
                i <= self.keys@.len(),
                forall|j: int| 0 <= j < i ==> (#[trigger] self.keys@[j])@ != key@,
            decreases self.keys.len() - i,
        {
            if bytes_eq(self.keys[i].0.as_slice(), key) {
                assert(key_views(self.keys@)[i as int] == key@);
                assert(key_views(self.keys@).contains(key@));
                return true;
            }
            i += 1;
        }
        proof {
            if key_views(self.keys@).contains(key@) {
                let k = choose|k: int|
                    0 <= k < key_views(self.keys@).len() && key_views(self.keys@)[k] == key@;
                assert(self.keys@[k]@ == key@);
            }
        }
        false
    }

    /// Adds a key.
    pub fn insert(&mut self, key: Bytes64)
        requires
            old(self).well_formed(),
        ensures
            final(self).well_formed(),
            final(self)@ == old(self)@.insert(key@),
    {
        let ghost before = key_views(self.keys@);
        if self.contains(key.0.as_slice()) {
            assert(old(self)@.insert(key@) =~= old(self)@);
            return;
        }
        self.keys.push(key);
        proof {
            let after = key_views(self.keys@);
            assert(after =~= before.push(key@));
            assert forall|a: int, b: int| 0 <= a < b < after.len() implies after[a] != after[b] by {
                if b == before.len() {
                    assert(before.contains(before[a]));
                    assert(old(self)@.contains(before[a]));
                }
            }
            assert forall|k: Seq<u8>| #[trigger] self@.contains(k) <==> old(self)@.insert(
                key@,
            ).contains(k) by {
                if after.contains(k) {
                    let i = choose|i: int| 0 <= i < after.len() && after[i] == k;
                    if i < before.len() {
                        assert(before[i] == k);
                    }
                }
                if before.contains(k) {
                    let i = choose|i: int| 0 <= i < before.len() && before[i] == k;
                    assert(after[i] == k);
                }
                if k == key@ {
                    assert(after[before.len() as int] == k);
                }
            }
            assert(self@ =~= old(self)@.insert(key@));
        }
    }

    /// The number of keys.
    pub fn len(&self) -> (n: usize)
        ensures
            self.well_formed() ==> n == self@.len(),
    {
        proof {
            if self.well_formed() {
                key_views(self.keys@).unique_seq_to_set();
            }
        }
        self.keys.len()
    }

    /// Copies of all keys, each once, in no particular order.
    pub fn to_vec(&self) -> (r: Vec<Bytes64>)
        ensures
            key_views(r@).to_set() == self@,
            self.well_formed() ==> key_views(r@).no_duplicates(),
    {
        let mut r: Vec<Bytes64> = Vec::new();
        let mut i: usize = 0;
        while i < self.keys.len()
            invariant
                i <= self.keys@.len(),
                r@.len() == i,
                forall|j: int| 0 <= j < i ==> (#[trigger] r@[j])@ == self.keys@[j]@,
            decreases self.keys.len() - i,
        {
            r.push(self.keys[i].duplicate());
            i += 1;
        }
        assert(key_views(r@) =~= key_views(self.keys@));
        r
    }
}

/// The configuration.
#[derive(Debug)]
pub struct Config {
    pub path: String,
    pub version: String,
    pub authorised_keys: AuthorisedKeys,
    pub http_config: HttpConfig,
    /// How long a login waits for its authorisation, in seconds.
    pub auth_timeout: Option<u64>,
    pub webtransport_permitted_domains: Vec<String>,
}

/// Why there is no configuration.
#[derive(Debug, Clone, Copy, PartialEq, Eq, Structural)]
pub struct NotAFile;

impl NotAFile {
    /// The message of the error.
    pub fn message(&self) -> (s: &'static str)
        ensures
            s@ == "The config path must be a file"@,
    {
        "The config path must be a file"
    }
}

/// The domains under which the session is served, where the configuration names none.
pub fn permitted_domains() -> (r: Vec<String>)
    ensures
        crate::text::views(r@) == seq!["localhost"@, "127.0.0.1"@],
{
    let mut r: Vec<String> = Vec::new();
    r.push("localhost".to_owned());
    r.push("127.0.0.1".to_owned());
    assert(crate::text::views(r@) =~= seq!["localhost"@, "127.0.0.1"@]);
    r
}

/// The path of a file in a directory.
pub open spec fn file_in(directory: Seq<char>, name: Seq<char>) -> Seq<char> {
    if directory.len() == 0 {
        name
    } else if directory.last() == '/' {
        directory + name
    } else {
        directory + "/"@ + name
    }
}

/// The path of a file in a directory.
pub fn join_path(directory: &str, name: &str) -> (s: String)
    ensures
        s@ == file_in(directory@, name@),
{
    let mut s = directory.to_owned();
    let n = directory.unicode_len();
    if n > 0 && directory.get_char(n - 1) != '/' {
        s.append("/");
    }
    s.append(name);
    assert(s@ =~= file_in(directory@, name@));
    s
}

impl Config {
    /// The configuration to begin with, for a file in `parent`: a server on this machine
    /// alone, with its key and certificate beside the file, that nobody may log in to.
    pub fn initialise_at(path: &str, parent: Option<&str>, version: &str) -> (r: Result<
        Config,
        NotAFile,
    >)
        ensures
            r is Ok == parent is Some,
            r matches Ok(c) ==> {
                &&& c.path@ == path@
                &&& c.version@ == version@
                &&& c.authorised_keys.well_formed()
                &&& c.authorised_keys@ == Set::<Seq<u8>>::empty()
                &&& c.http_config.host == IpAddress::V4(LOCALHOST)
                &&& c.http_config.port == DEFAULT_PORT
                &&& c.http_config.ssl_conf.key@ == file_in(parent->0@, "key.pem"@)
                &&& c.http_config.ssl_conf.certificate@ == file_in(parent->0@, "cert.pem"@)
                &&& c.auth_timeout is None
                &&& crate::text::views(c.webtransport_permitted_domains@) == seq![
                    "localhost"@,
                    "127.0.0.1"@,
                ]
            },
            r matches Ok(c) ==> c.http_config.host == IpAddress::V4(2130706433)
                && c.http_config.port == 443,
    {
        let parent = match parent {
            Some(parent) => parent,
            None => {
                return Err(NotAFile);
            },
        };
        Ok(
            Config {
                path: path.to_owned(),
                version: version.to_owned(),
                authorised_keys: AuthorisedKeys::new(),
                http_config: HttpConfig {
                    host: IpAddress::V4(LOCALHOST),
                    port: DEFAULT_PORT,
                    ssl_conf: SslConfig {
                        key: join_path(parent, "key.pem"),
                        certificate: join_path(parent, "cert.pem"),
                    },
                },
                auth_timeout: None,
                webtransport_permitted_domains: permitted_domains(),
            },
        )
    }
}

/// A file in a directory has the directory's path in front, one slash between, and its own name
/// at the end; in no directory at all it has its name alone.
pub proof fn files_lie_below_their_directory(directory: Seq<char>, name: Seq<char>)
    ensures
        directory.len() == 0 ==> file_in(directory, name) == name,
        directory.len() > 0 && directory.last() != '/' ==> file_in(directory, name)
            == directory.push('/') + name,
        directory.len() > 0 && directory.last() != '/' ==> file_in(directory.push('/'), name)
            == file_in(directory, name),
        crate::text::ends(file_in(directory, name), name),
        crate::text::begins(file_in(directory, name), directory),
{
    reveal_strlit("/");
    let d = directory.push('/');
    assert(directory + "/"@ + name =~= d + name);
    assert(d.last() == '/');
    crate::text::parts_are_found(directory, name, Seq::empty());
    crate::text::parts_are_found(d, name, Seq::empty());
    crate::text::parts_are_found(Seq::empty(), directory, name);
    crate::text::parts_are_found(Seq::empty(), directory, seq!['/'] + name);
    assert(directory + (seq!['/'] + name) =~= d + name);
    if directory.len() == 0 {
        assert(directory + name =~= name);
    }
}

} // verus!
