//! Commands to the running server, and the sessions that they are about.
use super::base64;
use super::bytes::bytes_eq;
use crate::shared::server_datagram::ServerDatagram;
use crate::text::{self, CharClass};
use std::collections::HashMap;
use vstd::prelude::*;

verus! {

broadcast use vstd::std_specs::hash::group_hash_axioms;

/// A command.
#[derive(Debug, Clone, Copy, PartialEq, Eq, Structural)]
pub enum IPCMessage {
    Exit,
    /// Let a challenged session in; by its number where there are several.
    Authorise(Option<usize>),
    /// Revoke a key.
    Deauthorise(Option<usize>),
    ReleaseMouse,
    FullscreenToggle(Option<usize>),
}

// ----- reading commands

/// What a command of one word may be followed by a number.
#[derive(Debug, Clone, Copy, PartialEq, Eq, Structural)]
pub enum Numbered {
    Authorise,
    Deauthorise,
    Fullscreen,
}

/// The commands that take an optional number, by their names.
pub open spec fn numbered_command(word: Seq<char>) -> Option<Numbered> {
    if word == "authorise"@ {
        Some(Numbered::Authorise)
    } else if word == "deauthorise"@ {
        Some(Numbered::Deauthorise)
    } else if word == "fullscreen"@ || word == "fullscreen_toggle"@ || word == "toggle_fullscreen"@ {
        Some(Numbered::Fullscreen)
    } else {
        None
    }
}

/// A command with its number.
pub open spec fn with_number(command: Numbered, n: Option<usize>) -> IPCMessage {
    match command {
        Numbered::Authorise => IPCMessage::Authorise(n),
        Numbered::Deauthorise => IPCMessage::Deauthorise(n),
        Numbered::Fullscreen => IPCMessage::FullscreenToggle(n),
    }
}

/// The command that some words make: a known one, and for some of them a number.
pub open spec fn command(words: Seq<Seq<char>>) -> Option<IPCMessage> {
    if words.len() == 1 && words[0] == "exit"@ {
        Some(IPCMessage::Exit)
    } else if words.len() == 1 && (words[0] == "release_mouse"@ || words[0] == "mouse_release"@) {
        Some(IPCMessage::ReleaseMouse)
    } else if words.len() == 1 {
        match numbered_command(words[0]) {
            Some(c) => Some(with_number(c, None)),
            None => None,
        }
    } else if words.len() == 2 {
        match (numbered_command(words[0]), text::parse_number(words[1], usize::MAX as nat)) {
            (Some(c), Some(n)) => Some(with_number(c, Some(n as usize))),
            _ => None,
        }
    } else {
        None
    }
}

/// What commands there are.
pub open spec fn usage() -> Seq<char> {
    "Webshooter supports the following commands while running:\n    authorise\n    deauthorise\n    release_mouse\n    fullscreen\n    exit"@
}

/// What commands there are.
pub fn usage_text() -> (s: &'static str)
    ensures
        s@ == usage(),
{
    "Webshooter supports the following commands while running:\n    authorise\n    deauthorise\n    release_mouse\n    fullscreen\n    exit"
}

fn numbered(word: &str) -> (r: Option<Numbered>)
    ensures
        r == numbered_command(word@),
{
    if text::str_eq(word, "authorise") {
        Some(Numbered::Authorise)
    } else if text::str_eq(word, "deauthorise") {
        Some(Numbered::Deauthorise)
    } else if text::str_eq(word, "fullscreen") || text::str_eq(word, "fullscreen_toggle")
        || text::str_eq(word, "toggle_fullscreen") {
        Some(Numbered::Fullscreen)
    } else {
        None
    }
}

fn number(command: Numbered, n: Option<usize>) -> (r: IPCMessage)
    ensures
        r == with_number(command, n),
{
    match command {
        Numbered::Authorise => IPCMessage::Authorise(n),
        Numbered::Deauthorise => IPCMessage::Deauthorise(n),
        Numbered::Fullscreen => IPCMessage::FullscreenToggle(n),
    }
}

impl IPCMessage {
    /// The command that some words make, which are in lower case already.
    pub fn from_words(words: &Vec<String>) -> (r: Option<IPCMessage>)
        ensures
            r == command(text::views(words@)),
    {
        let ghost all = text::views(words@);
        if words.len() == 1 {
            assert(all[0] == words@[0]@);
            let word = words[0].as_str();
            if text::str_eq(word, "exit") {
                Some(IPCMessage::Exit)
            } else if text::str_eq(word, "release_mouse") || text::str_eq(word, "mouse_release") {
                Some(IPCMessage::ReleaseMouse)
            } else {
                match numbered(word) {
                    Some(c) => Some(number(c, None)),
                    None => None,
                }
            }
        } else if words.len() == 2 {
            assert(all[0] == words@[0]@ && all[1] == words@[1]@);
            match numbered(words[0].as_str()) {
                Some(c) => match text::parse_unsigned(words[1].as_str(), usize::MAX as u64) {
                    Some(n) => Some(number(c, Some(n as usize))),
                    None => None,
                },
                None => None,
            }
        } else {
            None
        }
    }

    /// The command that some words make, in whatever case they are written. `Err` holds what
    /// commands there are.
    pub fn parse_args(args: &Vec<String>) -> (r: Result<IPCMessage, &'static str>)
        ensures
            match r {
                Ok(m) => command(
                    text::views(args@).map_values(|s: Seq<char>| text::lowercase(s)),
                ) == Some(m),
                Err(s) => command(
                    text::views(args@).map_values(|s: Seq<char>| text::lowercase(s)),
                ) is None && s@ == usage(),
            },
    {
        let mut words: Vec<String> = Vec::new();
        let mut i: usize = 0;
        while i < args.len()
            invariant
                i <= args.len(),
                words@.len() == i,
                forall|j: int| 0 <= j < i ==> (#[trigger] words@[j])@ == text::lowercase(args@[j]@),
            decreases args.len() - i,
        {
            words.push(text::to_lowercase(args[i].as_str()));
            i += 1;
        }
        assert(text::views(words@) =~= text::views(args@).map_values(
            |s: Seq<char>| text::lowercase(s),
        ));
        match IPCMessage::from_words(&words) {
            Some(m) => Ok(m),
            None => Err(usage_text()),
        }
    }

    /// The command on a line that was typed in: its words, between single spaces, in whatever
    /// case they are written. `Err` holds what commands there are.
    pub fn parse_line(line: &str) -> (r: Result<IPCMessage, &'static str>)
        ensures
            match r {
                Ok(m) => command(
                    text::pieces(line@, ' ').map_values(|s: Seq<char>| text::lowercase(s)),
                ) == Some(m),
                Err(s) => command(
                    text::pieces(line@, ' ').map_values(|s: Seq<char>| text::lowercase(s)),
                ) is None && s@ == usage(),
            },
    {
        IPCMessage::parse_args(&text::split(line, ' '))
    }
}

// ----- names of sessions

/// The short name of an identity: eight of its bytes in base64, without padding. Identities
/// that are too short for that are written out.
pub open spec fn short_id(id: Seq<u8>) -> Seq<char> {
    text::trimmed(
        base64::base64(
            if id.len() >= 32 {
                id.subrange(24, 32)
            } else {
                id
            },
        ),
        CharClass::Is('='),
    )
}

/// The short name of an identity.
pub fn format_id(id: &[u8]) -> (s: String)
    ensures
        s@ == short_id(id@),
{
    let encoded = if id.len() >= 32 {
        base64::encode(vstd::slice::slice_subrange(id, 24, 32))
    } else {
        base64::encode(id)
    };
    text::trim(encoded.as_str(), CharClass::Is('=')).to_owned()
}

/// Names with their numbers, one to a line.
pub open spec fn listing(names: Seq<Seq<char>>) -> Seq<char> {
    text::joined(
        Seq::new(names.len(), |i: int| text::decimal(i as nat) + ": "@ + names[i]),
        "\n"@,
    )
}

/// The question which session is meant.
pub open spec fn selection(names: Seq<Seq<char>>) -> Seq<char> {
    "Please select a session:\n"@ + listing(names)
}

/// The short names of identities.
pub open spec fn short_ids(ids: Seq<Vec<u8>>) -> Seq<Seq<char>> {
    ids.map_values(|id: Vec<u8>| short_id(id@))
}

/// The question which session is meant.
pub fn selection_text(names: &Vec<String>) -> (s: String)
    ensures
        s@ == selection(text::views(names@)),
{
    let mut lines: Vec<String> = Vec::new();
    let mut i: usize = 0;
    while i < names.len()
        invariant
            i <= names.len(),
            lines@.len() == i,
            forall|j: int|
                0 <= j < i ==> (#[trigger] lines@[j])@ == text::decimal(j as nat) + ": "@
                    + names@[j]@,
        decreases names.len() - i,
    {
        let mut line = text::decimal_string(i as u64);
        line.append(": ");
        line.append(names[i].as_str());
        lines.push(line);
        i += 1;
    }
    proof {
        let all = text::views(names@);
        assert(text::views(lines@) =~= Seq::new(
            all.len(),
            |i: int| text::decimal(i as nat) + ": "@ + all[i],
        ));
    }
    let list = text::join(&lines, "\n");
    let mut s = "Please select a session:\n".to_owned();
    s.append(list.as_str());
    s
}

/// The short names of identities.
pub fn short_names(ids: &Vec<Vec<u8>>) -> (names: Vec<String>)
    ensures
        text::views(names@) == short_ids(ids@),
{
    let mut names: Vec<String> = Vec::new();
    let mut i: usize = 0;
    while i < ids.len()
        invariant
            i <= ids.len(),
            names@.len() == i,
            forall|j: int| 0 <= j < i ==> (#[trigger] names@[j])@ == short_id(ids@[j]@),
        decreases ids.len() - i,
    {
        names.push(format_id(ids[i].as_slice()));
        i += 1;
    }
    assert(text::views(names@) =~= short_ids(ids@));
    names
}

// ----- the registry of sessions

/// The number of a connected client.
pub type ClientId = u64;

/// The connected clients: their numbers and the names of their users, and how often the
/// registry changed.
pub struct Registry {
    sessions: HashMap<u64, String>,
    revision: u64,
}

/// Who is connected.
#[verifier::ext_equal]
pub ghost struct Clients {
    pub names: Map<u64, Seq<char>>,
    pub revision: u64,
}

impl View for Registry {
    type V = Clients;

    closed spec fn view(&self) -> Clients {
        Clients {
            names: self.sessions@.map_values(|s: String| s@),
            revision: self.revision,
        }
    }
}

/// The lowest number from 1 on that no client has.
pub open spec fn lowest_free(names: Map<u64, Seq<char>>, id: u64) -> bool {
    &&& id >= 1
    &&& !names.contains_key(id)
    &&& forall|k: u64| 1 <= k < id ==> #[trigger] names.contains_key(k)
}

/// The numbers from 1 to `n`.
spec fn up_to(n: u64) -> Set<u64>
    decreases n,
{
    if n == 0 {
        Set::empty()
    } else {
        up_to((n - 1) as u64).insert(n)
    }
}

proof fn up_to_counts(n: u64)
    ensures
        up_to(n).finite(),
        up_to(n).len() == n,
        forall|k: u64| #[trigger] up_to(n).contains(k) <==> 1 <= k <= n,
    decreases n,
{
    if n > 0 {
        up_to_counts((n - 1) as u64);
    }
}

/// A registry that holds the numbers from 1 to `n` holds at least `n` clients.
proof fn taken_numbers_bound(names: Map<u64, Seq<char>>, n: u64)
    requires
        names.dom().finite(),
        forall|k: u64| 1 <= k <= n ==> #[trigger] names.contains_key(k),
    ensures
        n <= names.dom().len(),
{
    up_to_counts(n);
    assert(up_to(n).subset_of(names.dom()));
    vstd::set_lib::lemma_len_subset(up_to(n), names.dom());
}

impl Registry {
    /// Nobody is connected.
    pub fn new() -> (r: Registry)
        ensures
            r@ == (Clients { names: Map::empty(), revision: 0 }),
    {
        let r = Registry { sessions: HashMap::new(), revision: 0 };
        assert(r@.names =~= Map::<u64, Seq<char>>::empty());
        r
    }

    /// How often the registry changed.
    pub fn revision(&self) -> (n: u64)
        ensures
            n == self@.revision,
    {
        self.revision
    }

    /// The number for the next client: the lowest that is free.
    pub fn next_client_id(&self) -> (id: u64)
        requires
            self@.names.dom().len() < u64::MAX,
        ensures
            lowest_free(self@.names, id),
    {
        let mut id: u64 = 1;
        proof {
            assert(self.sessions@.dom() =~= self@.names.dom());
        }
        while self.sessions.contains_key(&id)
            invariant
                1 <= id,
                self@.names.dom().finite(),
                self@.names.dom().len() < u64::MAX,
                self.sessions@.dom() == self@.names.dom(),
                forall|k: u64| 1 <= k < id ==> #[trigger] self@.names.contains_key(k),
            decreases u64::MAX - id,
        {
            proof {
                assert(self@.names.contains_key(id));
                taken_numbers_bound(self@.names, id);
            }
            id += 1;
        }
        id
    }

    /// Registers a client under the lowest free number.
    pub fn register_session(&mut self, display_name: String) -> (id: u64)
        requires
            old(self)@.names.dom().len() < u64::MAX,
            old(self)@.revision < u64::MAX,
        ensures
            lowest_free(old(self)@.names, id),
            final(self)@ == (Clients {
                names: old(self)@.names.insert(id, display_name@),
                revision: (old(self)@.revision + 1) as u64,
            }),
    {
        let id = self.next_client_id();
        self.sessions.insert(id, display_name);
        self.notify_registry_changed();
        assert(self@.names =~= old(self)@.names.insert(id, display_name@));
        id
    }

    fn notify_registry_changed(&mut self)
        requires
            old(self)@.revision < u64::MAX,
        ensures
            final(self).sessions == old(self).sessions,
            final(self)@ == (Clients {
                names: old(self)@.names,
                revision: (old(self)@.revision + 1) as u64,
            }),
    {
        self.revision = self.revision + 1;
    }

    /// Removes a client.
    pub fn remove_session(&mut self, id: ClientId)
        requires
            old(self)@.revision < u64::MAX,
        ensures
            final(self)@ == (Clients {
                names: old(self)@.names.remove(id),
                revision: (old(self)@.revision + 1) as u64,
            }),
    {
        self.sessions.remove(&id);
        self.notify_registry_changed();
        assert(self@.names =~= old(self)@.names.remove(id));
    }

    /// The numbers of all clients, in no particular order.
    fn ids(&self) -> (ids: Vec<u64>)
        ensures
            ids@.no_duplicates(),
            forall|id: u64| #[trigger] ids@.contains(id) <==> self@.names.contains_key(id),
    {
        let ghost row = vstd::std_specs::iter::IteratorSpec::remaining(&self.sessions.keys());
        let mut ids: Vec<u64> = Vec::new();
        for id in it: self.sessions.keys()
            invariant
                it.seq() == row,
                ids@.len() == it.index(),
                forall|i: int| 0 <= i < it.index() ==> #[trigger] ids@[i] == *row[i],
        {
            ids.push(*id);
        }
        proof {
            assert(row.unref().to_set() == self.sessions@.dom());
            assert(ids@ =~= row.unref());
            assert forall|i: int, j: int| 0 <= i < j < ids@.len() implies ids@[i] != ids@[j] by {
                assert(row[i] != row[j]);
            }
            assert forall|id: u64| #[trigger] ids@.contains(id) <==> self@.names.contains_key(
                id,
            ) by {
                assert(ids@.to_set().contains(id) <==> ids@.contains(id));
            }
        }
        ids
    }

    /// The connected clients, in no particular order.
    pub fn list_clients(&self) -> (r: Vec<(ClientId, String)>)
        ensures
            forall|i: int|
                0 <= i < r@.len() ==> self@.names.contains_key((#[trigger] r@[i]).0)
                    && self@.names[r@[i].0] == r@[i].1@,
            forall|i: int, j: int|
                0 <= i < j < r@.len() ==> (#[trigger] r@[i]).0 != (#[trigger] r@[j]).0,
            forall|id: u64| #[trigger]
                self@.names.contains_key(id) ==> exists|i: int|
                    0 <= i < r@.len() && (#[trigger] r@[i]).0 == id,
    {
        let ids = self.ids();
        let mut r: Vec<(ClientId, String)> = Vec::new();
        let mut i: usize = 0;
        while i < ids.len()
            invariant
                i <= ids.len(),
                r@.len() == i,
                forall|id: u64| #[trigger] ids@.contains(id) <==> self@.names.contains_key(id),
                forall|j: int|
                    0 <= j < i ==> (#[trigger] r@[j]).0 == ids@[j] && r@[j].1@
                        == self@.names[ids@[j]],
            decreases ids.len() - i,
        {
            let id = ids[i];
            assert(ids@.contains(id));
            if let Some(name) = self.sessions.get(&id) {
                r.push((id, name.clone()));
            }
            i += 1;
        }
        proof {
            assert forall|j: int| 0 <= j < r@.len() implies self@.names.contains_key(
                (#[trigger] r@[j]).0,
            ) by {
                assert(ids@.contains(ids@[j]));
            }
            assert forall|id: u64| #[trigger] self@.names.contains_key(id) implies exists|j: int|
                0 <= j < r@.len() && (#[trigger] r@[j]).0 == id by {
                assert(ids@.contains(id));
                let j = choose|j: int| 0 <= j < ids@.len() && ids@[j] == id;
                assert(r@[j].0 == id);
            }
        }
        r
    }

    /// Whom a message for all clients goes to: every one of them, once.
    pub fn send_client_control(&self) -> (ids: Vec<ClientId>)
        ensures
            ids@.no_duplicates(),
            forall|id: u64| #[trigger] ids@.contains(id) <==> self@.names.contains_key(id),
    {
        self.ids()
    }

    /// Whether a message for one client can be delivered.
    pub fn send_client_control_to(&self, id: ClientId) -> (r: bool)
        ensures
            r == self@.names.contains_key(id),
    {
        self.sessions.contains_key(&id)
    }

    /// Disconnects a client: says whether there is one whose session is to be cancelled, and
    /// removes it in any case.
    pub fn disconnect_client(&mut self, id: ClientId) -> (cancel: bool)
        requires
            old(self)@.revision < u64::MAX,
        ensures
            cancel == old(self)@.names.contains_key(id),
            final(self)@ == (Clients {
                names: old(self)@.names.remove(id),
                revision: (old(self)@.revision + 1) as u64,
            }),
    {
        let cancel = self.sessions.contains_key(&id);
        self.remove_session(id);
        cancel
    }
}

/// A new client never takes the number of one that is connected, and takes the place of
/// one that left before it takes a higher number.
pub proof fn new_numbers_are_free(names: Map<u64, Seq<char>>, id: u64, other: u64)
    requires
        lowest_free(names, id),
    ensures
        names.contains_key(other) ==> other != id,
        1 <= other < id ==> names.contains_key(other),
        lowest_free(names, other) ==> other == id,
{
    if lowest_free(names, other) && other != id {
        if other < id {
            assert(names.contains_key(other));
        } else {
            assert(names.contains_key(id));
        }
    }
}

/// A client that is disconnected is not in the registry any more, and the others are.
pub proof fn disconnected_clients_are_gone(before: Clients, after: Clients, id: u64)
    requires
        after.names == before.names.remove(id),
    ensures
        !after.names.contains_key(id),
        forall|k: u64| k != id && #[trigger] before.names.contains_key(k) ==> after.names.contains_key(k)
            && after.names[k] == before.names[k],
{
}

// ----- revoking keys

/// A user: a key and the name that is shown for it.
pub struct User {
    pub key: Vec<u8>,
    pub display_name: String,
}

/// What comes of the command to revoke a key.
pub enum Deauthorisation {
    /// Only this is to be said.
    Reply(String),
    /// The key of this session is to be revoked.
    Revoke(Vec<u8>),
    /// There is no session of that number.
    InvalidIndex,
}

/// Decides whose key is revoked: that of the only challenged session, or that of the one
/// with the given number.
pub fn deauthorise(index: Option<usize>, sessions: &Vec<Vec<u8>>) -> (r: Deauthorisation)
    ensures
        match r {
            Deauthorisation::Reply(s) => (sessions@.len() == 0 && s@ == "No challenged sessions"@)
                || (sessions@.len() > 1 && index is None && s@ == selection(short_ids(sessions@))),
            Deauthorisation::Revoke(id) => (sessions@.len() == 1 && id@ == sessions@[0]@) || (
            sessions@.len() > 1 && (index matches Some(n) && n < sessions@.len() && id@
                == sessions@[n as int]@)),
            Deauthorisation::InvalidIndex => sessions@.len() > 1 && (index matches Some(n) && n
                >= sessions@.len()),
        },
{
    if sessions.len() == 0 {
        return Deauthorisation::Reply("No challenged sessions".to_owned());
    }
    if sessions.len() == 1 {
        let id = vstd::slice::slice_to_vec(sessions[0].as_slice());
        return Deauthorisation::Revoke(id);
    }
    match index {
        Some(n) => if n < sessions.len() {
            let id = vstd::slice::slice_to_vec(sessions[n].as_slice());
            Deauthorisation::Revoke(id)
        } else {
            Deauthorisation::InvalidIndex
        },
        None => {
            let names = short_names(sessions);
            Deauthorisation::Reply(selection_text(&names))
        },
    }
}

/// The users whose key is another one.
pub open spec fn others(users: Seq<User>, id: Seq<u8>) -> Seq<User> {
    users.filter(|u: User| u.key@ != id)
}

/// The last user with this key.
pub open spec fn last_with_key(users: Seq<User>, id: Seq<u8>) -> Option<User>
    decreases users.len(),
{
    if users.len() == 0 {
        None
    } else if users.last().key@ == id {
        Some(users.last())
    } else {
        last_with_key(users.drop_last(), id)
    }
}

/// The name that is shown for a key: that of the first user with it, or none.
pub open spec fn shown_name(users: Seq<User>, id: Seq<u8>) -> Seq<char>
    decreases users.len(),
{
    if users.len() == 0 {
        Seq::empty()
    } else if users[0].key@ == id {
        users[0].display_name@
    } else {
        shown_name(users.drop_first(), id)
    }
}

/// The name that is shown for a key.
pub fn display_name(users: &Vec<User>, id: &[u8]) -> (s: String)
    ensures
        s@ == shown_name(users@, id@),
{
    let mut i: usize = 0;
    assert(users@.skip(0) =~= users@);
    while i < users.len()
        invariant
            i <= users.len(),
            shown_name(users@, id@) == shown_name(users@.skip(i as int), id@),
        decreases users.len() - i,
    {
        let ghost rest = users@.skip(i as int);
        assert(rest[0] == users@[i as int]);
        assert(rest.drop_first() =~= users@.skip(i + 1));
        if bytes_eq(users[i].key.as_slice(), id) {
            return users[i].display_name.clone();
        }
        i += 1;
    }
    let none = String::new();
    assert(none@ =~= Seq::<char>::empty());
    none
}

/// Removes all users with this key and keeps the others in their order; returns the last of
/// those removed.
pub fn remove_user(users: &mut Vec<User>, id: &[u8]) -> (doomed: Option<User>)
    ensures
        final(users)@ == others(old(users)@, id@),
        doomed == last_with_key(old(users)@, id@),
{
    let ghost all = users@;
    let n = users.len();
    let mut reversed: Vec<User> = Vec::new();
    let mut i: usize = n;
    let mut doomed: Option<User> = None;
    while i > 0
        invariant
            i <= n,
            n == all.len(),
            users@ == all.take(i as int),
            others(all, id@) == others(all.take(i as int), id@) + reversed@.reverse(),
            last_with_key(all, id@) == (match doomed {
                Some(u) => Some(u),
                None => last_with_key(all.take(i as int), id@),
            }),
        decreases i,
    {
        let ghost shorter = all.take(i - 1);
        let ghost longer = all.take(i as int);
        let ghost before = reversed@;
        proof {
            assert(longer =~= shorter.push(all[i - 1]));
            assert(longer.drop_last() =~= shorter);
            reveal(Seq::filter);
        }
        if let Some(user) = users.pop() {
            assert(user == all[i - 1]);
            if bytes_eq(user.key.as_slice(), id) {
                if doomed.is_none() {
                    doomed = Some(user);
                }
                assert(others(longer, id@) =~= others(shorter, id@));
            } else {
                assert(others(longer, id@) =~= others(shorter, id@).push(user));
                reversed.push(user);
                assert(reversed@.reverse() =~= seq![user] + before.reverse());
                assert(others(longer, id@) + before.reverse() =~= others(shorter, id@)
                    + reversed@.reverse());
            }
        }
        i -= 1;
        assert(users@ =~= shorter);
    }
    proof {
        reveal(Seq::filter);
        assert(all.take(0) =~= Seq::<User>::empty());
        assert(others(all.take(0), id@) =~= Seq::<User>::empty());
        assert(others(all, id@) =~= reversed@.reverse());
    }
    let ghost rest = reversed@;
    while reversed.len() > 0
        invariant
            reversed@.len() <= rest.len(),
            reversed@ == rest.take(reversed@.len() as int),
            users@ == rest.reverse().take(rest.len() - reversed@.len()),
        decreases reversed@.len(),
    {
        let ghost k = rest.len() - reversed@.len();
        if let Some(user) = reversed.pop() {
            assert(user == rest.reverse()[k]);
            users.push(user);
            assert(users@ =~= rest.reverse().take(k + 1));
        }
    }
    assert(users@ =~= rest.reverse());
    doomed
}

/// What is said once a key was looked up among the users.
pub fn deauthorised_text(doomed: &Option<User>, id: &[u8]) -> (s: String)
    ensures
        s@ == (match *doomed {
            Some(user) => "Deauthorised \""@ + user.display_name@ + "\""@,
            None => "No user matching key "@ + short_id(id@),
        }),
{
    match doomed {
        Some(user) => {
            let mut s = "Deauthorised \"".to_owned();
            s.append(user.display_name.as_str());
            s.append("\"");
            s
        },
        None => {
            let mut s = "No user matching key ".to_owned();
            let short = format_id(id);
            s.append(short.as_str());
            s
        },
    }
}

// ----- handling commands

/// What to do about a command.
#[derive(Debug, Clone, Copy, PartialEq, Eq, Structural)]
pub enum Handling {
    /// Say this, then leave the program.
    Exit,
    /// Revoke a key.
    Deauthorise(Option<usize>),
    /// Tell all clients to enter or leave fullscreen.
    ToggleFullscreen,
    /// Tell all clients to let go of the mouse.
    ReleaseMouse,
    /// Hand the command to a login that waits for it.
    Forward,
}

/// What to do about a command.
pub fn handle(message: IPCMessage) -> (r: Handling)
    ensures
        r == (match message {
            IPCMessage::Exit => Handling::Exit,
            IPCMessage::Deauthorise(index) => Handling::Deauthorise(index),
            IPCMessage::FullscreenToggle(_) => Handling::ToggleFullscreen,
            IPCMessage::ReleaseMouse => Handling::ReleaseMouse,
            IPCMessage::Authorise(_) => Handling::Forward,
        }),
        r is Exit <==> message is Exit,
        r is ToggleFullscreen <==> message is FullscreenToggle,
        r is ReleaseMouse <==> message is ReleaseMouse,
        r is Forward <==> message is Authorise,
        r is Deauthorise <==> message is Deauthorise,
{
    match message {
        IPCMessage::Exit => Handling::Exit,
        IPCMessage::Deauthorise(index) => Handling::Deauthorise(index),
        IPCMessage::FullscreenToggle(_) => Handling::ToggleFullscreen,
        IPCMessage::ReleaseMouse => Handling::ReleaseMouse,
        IPCMessage::Authorise(_) => Handling::Forward,
    }
}

impl Handling {
    /// What is said about it.
    pub fn reply(self) -> (r: Option<&'static str>)
        ensures
            match self {
                Handling::Exit => r matches Some(s) && s@ == "Webshooter shutting down"@,
                Handling::ToggleFullscreen => r matches Some(s) && s@ == "Fullscreen toggled"@,
                Handling::ReleaseMouse => r matches Some(s) && s@ == "Mouse released"@,
                _ => r is None,
            },
    {
        match self {
            Handling::Exit => Some("Webshooter shutting down"),
            Handling::ToggleFullscreen => Some("Fullscreen toggled"),
            Handling::ReleaseMouse => Some("Mouse released"),
            _ => None,
        }
    }

    /// The message that goes to all clients.
    pub fn broadcast(self) -> (r: Option<ServerDatagram>)
        ensures
            match self {
                Handling::ToggleFullscreen => r matches Some(d) && d is ToggleFullscreen,
                Handling::ReleaseMouse => r matches Some(d) && d is ReleaseMouse,
                _ => r is None,
            },
    {
        match self {
            Handling::ToggleFullscreen => Some(ServerDatagram::ToggleFullscreen),
            Handling::ReleaseMouse => Some(ServerDatagram::ReleaseMouse),
            _ => None,
        }
    }
}

/// The first answer to a command from another process.
#[derive(Debug, Clone, Copy, PartialEq, Eq, Structural)]
pub enum FirstAnswer {
    /// There is no session that could be authorised.
    NoSessions,
    /// Say goodbye and leave the program.
    Bye,
    /// Handle the command.
    Handle,
}

/// The first answer to a command from another process.
pub fn first_answer(message: IPCMessage, any_challenged: bool) -> (r: FirstAnswer)
    ensures
        r == (match message {
            IPCMessage::Authorise(_) => if any_challenged {
                FirstAnswer::Handle
            } else {
                FirstAnswer::NoSessions
            },
            IPCMessage::Exit => FirstAnswer::Bye,
            _ => FirstAnswer::Handle,
        }),
        r is NoSessions <==> message is Authorise && !any_challenged,
        r is Bye <==> message is Exit,
{
    match message {
        IPCMessage::Authorise(_) => if any_challenged {
            FirstAnswer::Handle
        } else {
            FirstAnswer::NoSessions
        },
        IPCMessage::Exit => FirstAnswer::Bye,
        _ => FirstAnswer::Handle,
    }
}

impl FirstAnswer {
    /// What is said.
    pub fn text(self) -> (r: Option<&'static str>)
        ensures
            match self {
                FirstAnswer::NoSessions => r matches Some(s) && s@ == "No challenged sessions"@,
                FirstAnswer::Bye => r matches Some(s) && s@ == "Bye!"@,
                FirstAnswer::Handle => r is None,
            },
    {
        match self {
            FirstAnswer::NoSessions => Some("No challenged sessions"),
            FirstAnswer::Bye => Some("Bye!"),
            FirstAnswer::Handle => None,
        }
    }
}

/// Whether a process may send commands: its user could be found out and is our own.
pub fn peer_allowed(lookup: i32, peer_uid: u32, own_uid: u32) -> (r: bool)
    ensures
        r == (lookup == 0 && peer_uid == own_uid),
{
    lookup == 0 && peer_uid == own_uid
}

/// The name of the command socket.
pub fn socket_name(ipc_id: &str) -> (s: String)
    ensures
        s@ == "webshooter_"@ + ipc_id@ + ".sock"@,
{
    let mut s = "webshooter_".to_owned();
    s.append(ipc_id);
    s.append(".sock");
    s
}

/// What came of listening on the command socket, and of connecting to it where somebody
/// else listens already.
#[derive(Debug, Clone, Copy, PartialEq, Eq, Structural)]
pub enum SocketState {
    Listening,
    InUseAndRefused,
    InUseAndConnected,
    InUseAndUnreachable,
    Failed,
}

/// What this process is for.
#[derive(Debug, Clone, Copy, PartialEq, Eq, Structural)]
pub enum SocketRole {
    /// It is the server.
    Serve,
    /// It is the server, once the socket that nobody listens on any more is removed.
    Replace,
    /// A server runs already: hand it the command line.
    Command,
    /// Neither: report what went wrong.
    Fail,
}

/// What this process is for.
pub fn socket_role(state: SocketState) -> (r: SocketRole)
    ensures
        r == (match state {
            SocketState::Listening => SocketRole::Serve,
            SocketState::InUseAndRefused => SocketRole::Replace,
            SocketState::InUseAndConnected => SocketRole::Command,
            SocketState::InUseAndUnreachable | SocketState::Failed => SocketRole::Fail,
        }),
        r is Serve <==> state is Listening,
        r is Replace <==> state is InUseAndRefused,
        r is Command <==> state is InUseAndConnected,
{
    match state {
        SocketState::Listening => SocketRole::Serve,
        SocketState::InUseAndRefused => SocketRole::Replace,
        SocketState::InUseAndConnected => SocketRole::Command,
        SocketState::InUseAndUnreachable | SocketState::Failed => SocketRole::Fail,
    }
}

// ----- showing commands

/// An optional number on lines of its own, as a field of a command.
pub open spec fn shown_number(n: Option<usize>) -> Seq<char> {
    match n {
        None => "(\n    None,\n)"@,
        Some(k) => "(\n    Some(\n        "@ + text::decimal(k as nat) + ",\n    ),\n)"@,
    }
}

/// A command, spread over lines.
pub open spec fn shown(message: IPCMessage) -> Seq<char> {
    match message {
        IPCMessage::Exit => "Exit"@,
        IPCMessage::Authorise(n) => "Authorise"@ + shown_number(n),
        IPCMessage::Deauthorise(n) => "Deauthorise"@ + shown_number(n),
        IPCMessage::ReleaseMouse => "ReleaseMouse"@,
        IPCMessage::FullscreenToggle(n) => "FullscreenToggle"@ + shown_number(n),
    }
}

fn push_number(s: &mut String, n: Option<usize>)
    ensures
        final(s)@ == old(s)@ + shown_number(n),
{
    match n {
        None => {
            s.append("(\n    None,\n)");
        },
        Some(k) => {
            s.append("(\n    Some(\n        ");
            text::push_decimal(s, k as u64);
            s.append(",\n    ),\n)");
            assert(s@ =~= old(s)@ + shown_number(n));
        },
    }
}

/// A command, spread over lines.
pub fn show(message: IPCMessage) -> (s: String)
    ensures
        s@ == shown(message),
{
    match message {
        IPCMessage::Exit => "Exit".to_owned(),
        IPCMessage::ReleaseMouse => "ReleaseMouse".to_owned(),
        IPCMessage::Authorise(n) => {
            let mut s = "Authorise".to_owned();
            push_number(&mut s, n);
            s
        },
        IPCMessage::Deauthorise(n) => {
            let mut s = "Deauthorise".to_owned();
            push_number(&mut s, n);
            s
        },
        IPCMessage::FullscreenToggle(n) => {
            let mut s = "FullscreenToggle".to_owned();
            push_number(&mut s, n);
            s
        },
    }
}

proof fn command_words_differ()
    ensures
        "exit"@.len() == 4,
        "authorise"@.len() == 9,
        "deauthorise"@.len() == 11,
        "fullscreen"@.len() == 10,
        "release_mouse"@.len() == 13 && "release_mouse"@[0] == 'r',
        "mouse_release"@.len() == 13 && "mouse_release"@[0] == 'm',
        "fullscreen_toggle"@.len() == 17 && "fullscreen_toggle"@[0] == 'f',
        "toggle_fullscreen"@.len() == 17 && "toggle_fullscreen"@[0] == 't',
{
    reveal_strlit("exit");
    reveal_strlit("authorise");
    reveal_strlit("deauthorise");
    reveal_strlit("fullscreen");
    reveal_strlit("release_mouse");
    reveal_strlit("mouse_release");
    reveal_strlit("fullscreen_toggle");
    reveal_strlit("toggle_fullscreen");
}

/// The commands that stand alone, under all their names: to exit, to release the mouse, and the
/// others without a number.
pub proof fn single_words_are_commands(words: Seq<Seq<char>>)
    ensures
        command(words) == Some(IPCMessage::Exit) <==> words == seq!["exit"@],
        command(words) == Some(IPCMessage::ReleaseMouse) <==> words == seq!["release_mouse"@]
            || words == seq!["mouse_release"@],
        command(words) == Some(IPCMessage::Authorise(None)) <==> words == seq!["authorise"@],
        command(words) == Some(IPCMessage::Deauthorise(None)) <==> words == seq!["deauthorise"@],
        command(words) == Some(IPCMessage::FullscreenToggle(None)) <==> words == seq![
            "fullscreen"@,
        ] || words == seq!["fullscreen_toggle"@] || words == seq!["toggle_fullscreen"@],
{
    command_words_differ();
    if words.len() == 1 {
        assert(words =~= seq![words[0]]);
    }
}

/// The commands that take a number: the word and the number, and nothing else.
pub proof fn numbers_follow_their_commands(words: Seq<Seq<char>>, n: usize)
    ensures
        command(words) == Some(IPCMessage::Authorise(Some(n))) <==> words.len() == 2 && words[0]
            == "authorise"@ && text::parse_number(words[1], usize::MAX as nat) == Some(n as nat),
        command(words) == Some(IPCMessage::Deauthorise(Some(n))) <==> words.len() == 2 && words[0]
            == "deauthorise"@ && text::parse_number(words[1], usize::MAX as nat) == Some(n as nat),
        command(words) == Some(IPCMessage::FullscreenToggle(Some(n))) <==> words.len() == 2 && (
        words[0] == "fullscreen"@ || words[0] == "fullscreen_toggle"@ || words[0]
            == "toggle_fullscreen"@) && text::parse_number(words[1], usize::MAX as nat) == Some(
            n as nat,
        ),
{
    command_words_differ();
}

/// A client's number is the least that is free: those below it are taken, and it is not.
pub proof fn numbers_are_the_least_free(names: Map<u64, Seq<char>>, id: u64)
    ensures
        lowest_free(names, id) <==> id > 0 && !names.contains_key(id) && !(exists|k: u64|
            0 < k < id && !(#[trigger] names.contains_key(k))),
{
}

/// A long identity is shown by its eight bytes from the 25th on, and by nothing else of it.
pub proof fn long_identities_are_shown_by_eight_bytes(a: Seq<u8>, b: Seq<u8>)
    requires
        a.len() >= 32,
        b.len() >= 32,
        a.skip(24).take(8) == b.skip(24).take(8),
    ensures
        short_id(a) == short_id(b),
        short_id(a) == short_id(a.skip(24).take(8)),
{
    assert(a.subrange(24, 32) =~= a.skip(24).take(8));
    assert(b.subrange(24, 32) =~= b.skip(24).take(8));
}

/// A session stands on a line of its own, behind its number, a colon and a space; the first one
/// has number 0.
pub proof fn sessions_are_listed_by_number(names: Seq<Seq<char>>)
    requires
        names.len() > 0,
        forall|i: int| 0 <= i < names.len() ==> !(#[trigger] names[i]).contains('\n'),
    ensures
        text::pieces(listing(names), '\n').len() == names.len(),
        forall|i: int|
            0 <= i < names.len() ==> #[trigger] text::pieces(listing(names), '\n')[i]
                == text::decimal(i as nat) + ": "@ + names[i],
{
    let parts = Seq::new(names.len(), |i: int| text::decimal(i as nat) + ": "@ + names[i]);
    reveal_strlit("\n");
    reveal_strlit(": ");
    assert("\n"@ =~= seq!['\n']);
    assert forall|i: int| 0 <= i < parts.len() implies !(#[trigger] parts[i]).contains('\n') by {
        text::decimal_digits(i as nat);
        let d = text::decimal(i as nat);
        assert(!names[i].contains('\n'));
        if parts[i].contains('\n') {
            let k = choose|k: int| 0 <= k < parts[i].len() && parts[i][k] == '\n';
            if k < d.len() {
                assert(text::is_digit(d[k]));
            } else if k >= d.len() + 2 {
                assert(names[i][k - d.len() - 2] == '\n');
            }
        }
    }
    text::joined_parts_are_split_again(parts, '\n');
}

/// The name that is shown is that of the first user with the key, and empty where there is none.
pub proof fn the_first_user_with_a_key_is_shown(users: Seq<User>, id: Seq<u8>, n: int)
    ensures
        0 <= n < users.len() && users[n].key@ == id && (forall|i: int|
            0 <= i < n ==> (#[trigger] users[i]).key@ != id) ==> shown_name(users, id)
            == users[n].display_name@,
        (forall|i: int| 0 <= i < users.len() ==> (#[trigger] users[i]).key@ != id) ==> shown_name(
            users,
            id,
        ).len() == 0,
    decreases users.len(),
{
    if users.len() > 0 {
        let rest = users.drop_first();
        the_first_user_with_a_key_is_shown(rest, id, n - 1);
        assert(forall|i: int| 0 <= i < rest.len() ==> #[trigger] rest[i] == users[i + 1]);
    }
}

/// The user that is reported gone is the last one with the key, and none where there is none.
pub proof fn the_last_user_with_a_key_is_gone(users: Seq<User>, id: Seq<u8>, n: int)
    ensures
        0 <= n < users.len() && users[n].key@ == id && (forall|i: int|
            n < i < users.len() ==> (#[trigger] users[i]).key@ != id) ==> last_with_key(users, id)
            == Some(users[n]),
        (forall|i: int| 0 <= i < users.len() ==> (#[trigger] users[i]).key@ != id)
            ==> last_with_key(users, id) is None,
    decreases users.len(),
{
    if users.len() > 0 {
        let rest = users.drop_last();
        the_last_user_with_a_key_is_gone(rest, id, n);
        assert(forall|i: int| 0 <= i < rest.len() ==> #[trigger] rest[i] == users[i]);
    }
}

/// All users with the key are gone and all others stay, in their order.
pub proof fn others_stay_in_order(users: Seq<User>, user: User, id: Seq<u8>)
    ensures
        others(Seq::empty(), id).len() == 0,
        user.key@ == id ==> others(users.push(user), id) == others(users, id),
        user.key@ != id ==> others(users.push(user), id) == others(users, id).push(user),
{
    reveal(Seq::filter);
    let keep = |u: User| u.key@ != id;
    assert(users.push(user).drop_last() =~= users);
}

/// What is shown of a long identity is the base64 of those bytes without its padding.
pub proof fn identities_are_shown_without_padding(id: Seq<u8>)
    requires
        id.len() >= 32,
    ensures
        base64::base64(id.skip(24).take(8)) == short_id(id).push('='),
        short_id(id).len() == 11,
{
    let bytes = id.skip(24).take(8);
    assert(id.subrange(24, 32) =~= bytes);
    let s = base64::base64(bytes);
    base64::base64_comes_in_fours(bytes);
    assert(s[0] == base64::block(bytes.take(3))[0]);
    let n = base64::triple(bytes.take(3));
    base64::alphabet_is_in_order(n / 262144);
    assert(s[0] != '=');
    let class = CharClass::Is('=');
    let (i, j) = text::trimming_takes_off_both_ends(s, class);
    if i > 0 {
        assert(text::in_class(s[0], class));
    }
    if j < 11 {
        assert(text::in_class(s[10], class));
    }
    assert(j <= 11) by {
        if i < j && j == 12 {
            assert(!text::in_class(s[11], class));
        }
    }
    assert(s =~= s.subrange(0, 11).push('='));
}

} // verus!
