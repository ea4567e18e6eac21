//! The pages of the client: where they are mounted, and what a path stands for.
use crate::text::{self, CharClass};
use serde_json::{Map as JsonMap, Value};
use std::collections::HashMap;
use vstd::prelude::*;

verus! {

broadcast use vstd::std_specs::hash::group_hash_axioms;

// ----- icons

/// The smallest icon that is drawn, in pixels.
pub const SMALLEST_ICON: u32 = 32;

/// The largest icon that is drawn, in pixels.
pub const LARGEST_ICON: u32 = 2048;

/// The size that the path of an icon names, `icon-` and the size and `.png`, where it is one
/// that is drawn.
pub open spec fn icon_size(path: Seq<char>) -> Option<u32> {
    match text::after_prefix(path, "icon-"@) {
        None => None,
        Some(rest) => match text::before_suffix(rest, ".png"@) {
            None => None,
            Some(digits) => match text::parse_number(digits, u32::MAX as nat) {
                None => None,
                Some(n) => if SMALLEST_ICON <= n <= LARGEST_ICON {
                    Some(n as u32)
                } else {
                    None
                },
            },
        },
    }
}

/// The size that the path of an icon names.
pub fn icon_size_from_path(path: &str) -> (r: Option<u32>)
    ensures
        r == icon_size(path@),
{
    let rest = match text::strip_prefix(path, "icon-") {
        Some(rest) => rest,
        None => {
            return None;
        },
    };
    let digits = match text::strip_suffix(rest, ".png") {
        Some(digits) => digits,
        None => {
            return None;
        },
    };
    match text::parse_unsigned(digits, u32::MAX as u64) {
        Some(n) => if SMALLEST_ICON as u64 <= n && n <= LARGEST_ICON as u64 {
            Some(n as u32)
        } else {
            None
        },
        None => None,
    }
}

/// Every size in the range has its path, and that path names it.
pub proof fn icon_paths_name_their_sizes(n: u32)
    requires
        SMALLEST_ICON <= n <= LARGEST_ICON,
    ensures
        icon_size("icon-"@ + text::decimal(n as nat) + ".png"@) == Some(n),
{
    let digits = text::decimal(n as nat);
    let path = "icon-"@ + digits + ".png"@;
    assert(path.subrange(0, "icon-"@.len() as int) =~= "icon-"@);
    let rest = path.skip("icon-"@.len() as int);
    assert(rest =~= digits + ".png"@);
    assert(rest.subrange(rest.len() - ".png"@.len(), rest.len() as int) =~= ".png"@);
    assert(rest.take(rest.len() - ".png"@.len()) =~= digits);
    text::decimal_reads_back(n as nat, u32::MAX as nat);
}

/// The icons that were drawn, by their sizes.
pub struct IconCache {
    icons: HashMap<u32, Vec<u8>>,
}

impl View for IconCache {
    type V = Map<u32, Seq<u8>>;

    closed spec fn view(&self) -> Map<u32, Seq<u8>> {
        self.icons@.map_values(|v: Vec<u8>| v@)
    }
}

impl IconCache {
    /// None was drawn.
    pub fn new() -> (c: IconCache)
        ensures
            c@ == Map::<u32, Seq<u8>>::empty(),
    {
        let c = IconCache { icons: HashMap::new() };
        assert(c@ =~= Map::<u32, Seq<u8>>::empty());
        c
    }

    /// The icon of a size, where it was drawn.
    pub fn get(&self, size: u32) -> (r: Option<Vec<u8>>)
        ensures
            match r {
                Some(png) => self@.contains_key(size) && png@ == self@[size],
                None => !self@.contains_key(size),
            },
    {
        match self.icons.get(&size) {
            Some(png) => {
                let copy = vstd::slice::slice_to_vec(png.as_slice());
                assert(copy@ =~= self@[size]);
                Some(copy)
            },
            None => None,
        }
    }

    /// Keeps an icon that was drawn.
    pub fn insert(&mut self, size: u32, png: Vec<u8>)
        ensures
            final(self)@ == old(self)@.insert(size, png@),
    {
        self.icons.insert(size, png);
        assert(self@ =~= old(self)@.insert(size, png@));
    }
}

// ----- paths

/// What a path stands for.
pub enum Route {
    /// The web manifest, made for the request.
    Manifest,
    /// The brand icon in this size.
    Icon(u32),
    /// A file of the client.
    Asset(String),
}

/// What a path stands for; no path at all stands for the start page.
pub fn route(path: Option<&str>) -> (r: Route)
    ensures
        ({
            let p = match path {
                Some(p) => p@,
                None => "index.html"@,
            };
            if p == "manifest.webmanifest"@ {
                r is Manifest
            } else if icon_size(p) is Some {
                r == Route::Icon(icon_size(p)->0)
            } else {
                r matches Route::Asset(name) && name@ == p
            }
        }),
{
    let path = match path {
        Some(path) => path,
        None => "index.html",
    };
    if text::str_eq(path, "manifest.webmanifest") {
        return Route::Manifest;
    }
    match icon_size_from_path(path) {
        Some(size) => Route::Icon(size),
        None => Route::Asset(path.to_owned()),
    }
}

/// The path that a `Forwarded` header names: the first part that begins with `path=`, without
/// quotes.
pub open spec fn forwarded_path(parts: Seq<Seq<char>>) -> Option<Seq<char>>
    decreases parts.len(),
{
    if parts.len() == 0 {
        None
    } else {
        match text::after_prefix(text::trimmed(parts[0], CharClass::Whitespace), "path="@) {
            Some(path) => Some(text::trimmed(path, CharClass::Is('"'))),
            None => forwarded_path(parts.drop_first()),
        }
    }
}

/// The text without the slashes at its end, but for one that is all there is.
pub open spec fn without_slashes(s: Seq<char>) -> Seq<char>
    decreases s.len(),
{
    if s.len() > 1 && s.last() == '/' {
        without_slashes(s.drop_last())
    } else {
        s
    }
}

/// A path that begins with a slash and does not end with one, unless it is the root.
pub open spec fn normal_path(s: Seq<char>) -> Seq<char> {
    let t = text::trimmed(s, CharClass::Whitespace);
    without_slashes(
        if t.len() > 0 && t[0] == '/' {
            t
        } else {
            seq!['/'] + t
        },
    )
}

/// A header that is there and not empty.
pub open spec fn filled(header: Option<Seq<char>>) -> Option<Seq<char>> {
    match header {
        Some(v) => if v.len() > 0 {
            Some(v)
        } else {
            None
        },
        None => None,
    }
}

/// Where the client is mounted, going by the headers of a proxy: the first one that says it
/// counts, and without any it is the root.
pub open spec fn mount(
    prefix: Option<Seq<char>>,
    path: Option<Seq<char>>,
    forwarded: Option<Seq<char>>,
) -> Seq<char> {
    normal_path(
        match filled(prefix) {
            Some(v) => v,
            None => match filled(path) {
                Some(v) => v,
                None => match forwarded {
                    Some(v) => match forwarded_path(text::pieces(v, ';')) {
                        Some(p) => p,
                        None => "/"@,
                    },
                    None => "/"@,
                },
            },
        },
    )
}

fn find_forwarded_path(header: &str) -> (r: Option<String>)
    ensures
        (match r {
            Some(s) => Some(s@),
            None => None,
        }) == forwarded_path(text::pieces(header@, ';')),
{
    let parts = text::split(header, ';');
    let ghost all = text::views(parts@);
    let mut i: usize = 0;
    assert(all.skip(0) =~= all);
    while i < parts.len()
        invariant
            i <= parts.len(),
            all == text::views(parts@),
            all == text::pieces(header@, ';'),
            forwarded_path(all) == forwarded_path(all.skip(i as int)),
        decreases parts.len() - i,
    {
        let ghost rest = all.skip(i as int);
        assert(rest[0] == parts@[i as int]@);
        assert(rest.drop_first() =~= all.skip(i + 1));
        let part = text::trim(parts[i].as_str(), CharClass::Whitespace);
        if let Some(path) = text::strip_prefix(part, "path=") {
            return Some(text::trim(path, CharClass::Is('"')).to_owned());
        }
        i += 1;
    }
    None
}

fn normalise(raw: &str) -> (s: String)
    ensures
        s@ == normal_path(raw@),
{
    let trimmed = text::trim(raw, CharClass::Whitespace);
    let mut base = String::new();
    if trimmed.unicode_len() == 0 || trimmed.get_char(0) != '/' {
        base.push('/');
    }
    base.append(trimmed);
    let ghost full = base@;
    assert(full =~= if trimmed@.len() > 0 && trimmed@[0] == '/' {
        trimmed@
    } else {
        seq!['/'] + trimmed@
    });
    let text = base.as_str();
    let mut n: usize = text.unicode_len();
    assert(full.take(n as int) =~= full);
    while n > 1 && text.get_char(n - 1) == '/'
        invariant
            1 <= n <= full.len(),
            text@ == full,
            without_slashes(full) == without_slashes(full.take(n as int)),
        decreases n,
    {
        assert(full.take(n as int).drop_last() =~= full.take(n - 1));
        n -= 1;
    }
    let r = text.substring_char(0, n);
    assert(r@ =~= full.take(n as int));
    assert(without_slashes(full.take(n as int)) == full.take(n as int));
    r.to_owned()
}

/// Where the client is mounted, going by the headers `x-forwarded-prefix`,
/// `x-forwarded-path` and `forwarded`.
pub fn base_path(prefix: Option<&str>, path: Option<&str>, forwarded: Option<&str>) -> (s: String)
    ensures
        s@ == mount(
            text::str_view(prefix),
            text::str_view(path),
            text::str_view(forwarded),
        ),
{
    if let Some(v) = prefix {
        if v.unicode_len() > 0 {
            return normalise(v);
        }
    }
    if let Some(v) = path {
        if v.unicode_len() > 0 {
            return normalise(v);
        }
    }
    if let Some(v) = forwarded {
        if let Some(p) = find_forwarded_path(v) {
            return normalise(p.as_str());
        }
    }
    normalise("/")
}

proof fn slashes_are_gone(s: Seq<char>)
    requires
        s.len() > 0,
        s[0] == '/',
    ensures
        without_slashes(s).len() > 0,
        without_slashes(s)[0] == '/',
        without_slashes(s).len() > 1 ==> without_slashes(s).last() != '/',
    decreases s.len(),
{
    if s.len() > 1 && s.last() == '/' {
        slashes_are_gone(s.drop_last());
    }
}

/// Wherever the client is mounted, the path begins with a slash, and does not end with one
/// unless it is the root.
pub proof fn mounts_are_normal(
    prefix: Option<Seq<char>>,
    path: Option<Seq<char>>,
    forwarded: Option<Seq<char>>,
)
    ensures
        mount(prefix, path, forwarded).len() > 0,
        mount(prefix, path, forwarded)[0] == '/',
        mount(prefix, path, forwarded).last() == '/' ==> mount(prefix, path, forwarded) == seq!['/'],
{
    let raw = match filled(prefix) {
        Some(v) => v,
        None => match filled(path) {
            Some(v) => v,
            None => match forwarded {
                Some(v) => match forwarded_path(text::pieces(v, ';')) {
                    Some(p) => p,
                    None => "/"@,
                },
                None => "/"@,
            },
        },
    };
    let t = text::trimmed(raw, CharClass::Whitespace);
    let full = if t.len() > 0 && t[0] == '/' {
        t
    } else {
        seq!['/'] + t
    };
    slashes_are_gone(full);
    let m = mount(prefix, path, forwarded);
    if m.last() == '/' {
        assert(m =~= seq!['/']);
    }
}

// ----- the web manifest

/// A JSON object: names and values, in the order of the names.
#[verifier::external_type_specification]
#[verifier::external_body]
#[verifier::reject_recursive_types(K)]
#[verifier::reject_recursive_types(V)]
pub struct ExJsonMap<K, V>(JsonMap<K, V>);

/// Any JSON value.
#[verifier::external_type_specification]
#[verifier::external_body]
pub struct ExJsonValue(Value);

/// What a JSON object holds: the value of each member, as JSON.
pub uninterp spec fn json_members(object: JsonMap<String, Value>) -> Map<Seq<char>, Seq<char>>;

/// What `serde_json::from_slice` reads in a document: nothing where it is no JSON, and else
/// what the object in it holds, where it is an object.
pub uninterp spec fn json_parsed(document: Seq<u8>) -> Option<Option<Map<Seq<char>, Seq<char>>>>;

/// The document that `serde_json::to_vec` makes of a JSON object.
pub uninterp spec fn json_document(members: Map<Seq<char>, Seq<char>>) -> Seq<u8>;

/// The digit for four bits.
pub open spec fn hex_digit(n: u32) -> char {
    if n < 10 {
        ('0' as u32 + n) as char
    } else {
        ('a' as u32 + (n - 10)) as char
    }
}

/// A character as it stands in a JSON string.
pub open spec fn json_char(c: char) -> Seq<char> {
    let n = c as u32;
    if c == '"' || c == '\\' {
        seq!['\\', c]
    } else if n == 0x8 {
        seq!['\\', 'b']
    } else if n == 0x9 {
        seq!['\\', 't']
    } else if n == 0xa {
        seq!['\\', 'n']
    } else if n == 0xc {
        seq!['\\', 'f']
    } else if n == 0xd {
        seq!['\\', 'r']
    } else if n < 0x20 {
        seq!['\\', 'u', '0', '0', hex_digit(n / 16), hex_digit(n % 16)]
    } else {
        seq![c]
    }
}

/// The characters of a text as they stand in a JSON string.
pub open spec fn json_chars(s: Seq<char>) -> Seq<char>
    decreases s.len(),
{
    if s.len() == 0 {
        Seq::empty()
    } else {
        json_chars(s.drop_last()) + json_char(s.last())
    }
}

/// A text as a JSON string.
pub open spec fn json_quoted(s: Seq<char>) -> Seq<char> {
    seq!['"'] + json_chars(s) + seq!['"']
}

/// Calls [`serde_json::from_slice`]; a value that is no object is told apart, and not handed
/// out. What is read is a function of the bytes.
#[verifier::external_body]
fn parse_json(document: &[u8]) -> (r: Result<Option<JsonMap<String, Value>>, serde_json::Error>)
    ensures
        (match r {
            Ok(Some(object)) => Some(Some(json_members(object))),
            Ok(None) => Some(None),
            Err(_) => None,
        }) == json_parsed(document@),
{
    match serde_json::from_slice(document)? {
        Value::Object(object) => Ok(Some(object)),
        Value::Null => Ok(None),
        Value::Bool(_) => Ok(None),
        Value::Number(_) => Ok(None),
        Value::String(_) => Ok(None),
        Value::Array(_) => Ok(None),
    }
}

/// Calls [`serde_json::Map::new`], which makes an object without members.
#[verifier::external_body]
fn empty_object() -> (r: JsonMap<String, Value>)
    ensures
        (json_members(r) == Map::<Seq<char>, Seq<char>>::empty()),
{
    JsonMap::new()
}

/// Calls [`serde_json::Map::insert`] with a string, which takes the place of any member of
/// that name.
#[verifier::external_body]
fn set_string(object: &mut JsonMap<String, Value>, name: &str, value: &str)
    ensures
        json_members(*final(object)) == json_members(*old(object)).insert(
            name@,
            json_quoted(value@),
        ),
{
    object.insert(name.to_string(), Value::String(value.to_string()));
}

/// Calls [`serde_json::to_vec`]. The members are written in the order of their names, so the
/// document is a function of what the object holds.
#[verifier::external_body]
fn write_object(object: &JsonMap<String, Value>) -> (r: Vec<u8>)
    ensures
        r@ == json_document(json_members(*object)),
{
    serde_json::to_vec(object).unwrap_or_default()
}

/// The address of a client that is mounted at `base`: the path with one slash at its end.
pub open spec fn home(base: Seq<char>) -> Seq<char> {
    if base == "/"@ {
        "/"@
    } else {
        base + "/"@
    }
}

/// What the manifest of a client holds that is mounted at `base`: what its file holds, with
/// the start page and the scope at that place.
pub open spec fn manifest_members(members: Map<Seq<char>, Seq<char>>, base: Seq<char>) -> Map<
    Seq<char>,
    Seq<char>,
> {
    members.insert("start_url"@, json_quoted(home(base))).insert("scope"@, json_quoted(home(base)))
}

/// The manifest of a client that is mounted at `base`, made from what was read in its file. A
/// file that is missing, no JSON or no JSON object counts as an empty object.
pub fn manifest_object(
    read: Option<Result<Option<JsonMap<String, Value>>, serde_json::Error>>,
    base: &str,
) -> (r: JsonMap<String, Value>)
    ensures
        json_members(r) == manifest_members(
            match read {
                Some(Ok(Some(object))) => json_members(object),
                _ => Map::empty(),
            },
            base@,
        ),
{
    let mut object = match read {
        Some(Ok(Some(object))) => object,
        _ => empty_object(),
    };
    let mut url = base.to_owned();
    if !text::str_eq(base, "/") {
        url.append("/");
    }
    set_string(&mut object, "start_url", url.as_str());
    set_string(&mut object, "scope", url.as_str());
    object
}

/// The manifest of a client that is mounted at `base`. A file that is missing or no JSON
/// object counts as an empty one.
pub fn manifest(asset: Option<&[u8]>, base: &str) -> (r: Vec<u8>)
    ensures
        r@ == json_document(
            manifest_members(
                match asset {
                    Some(document) => match json_parsed(document@) {
                        Some(Some(members)) => members,
                        _ => Map::empty(),
                    },
                    None => Map::empty(),
                },
                base@,
            ),
        ),
{
    let read = match asset {
        Some(document) => Some(parse_json(document)),
        None => None,
    };
    write_object(&manifest_object(read, base))
}

/// Wherever the client is mounted, its address begins with a slash and ends with one, and it
/// is a path and no host: it does not begin with two slashes unless the mount itself does.
pub proof fn homes_are_directories(
    prefix: Option<Seq<char>>,
    path: Option<Seq<char>>,
    forwarded: Option<Seq<char>>,
)
    ensures
        home(mount(prefix, path, forwarded))[0] == '/',
        home(mount(prefix, path, forwarded)).last() == '/',
        ({
            let h = home(mount(prefix, path, forwarded));
            h.len() > 1 && h[1] == '/' ==> mount(prefix, path, forwarded)[1] == '/'
                && mount(prefix, path, forwarded).len() > 1
        }),
{
    mounts_are_normal(prefix, path, forwarded);
    reveal_strlit("/");
    let base = mount(prefix, path, forwarded);
    assert("/"@ =~= seq!['/']);
    if base.len() == 1 {
        assert(base =~= seq!['/']);
    }
}

/// The manifest keeps every other member of its file.
pub proof fn manifests_keep_their_members(
    members: Map<Seq<char>, Seq<char>>,
    base: Seq<char>,
    name: Seq<char>,
)
    requires
        name != "start_url"@,
        name != "scope"@,
    ensures
        manifest_members(members, base).contains_key(name) == members.contains_key(name),
        members.contains_key(name) ==> manifest_members(members, base)[name] == members[name],
{
}

/// An icon's path is `icon-`, its size and `.png`, and nothing else is one: the size lies between
/// 32 and 2048.
pub proof fn icons_are_named_by_size(path: Seq<char>, digits: Seq<char>)
    ensures
        icon_size(path) matches Some(n) ==> 32 <= n <= 2048 && exists|d: Seq<char>|
            path == #[trigger] ("icon-"@ + d + ".png"@) && text::parse_number(d, u32::MAX as nat)
                == Some(n as nat),
        icon_size("icon-"@ + digits + ".png"@) == (match text::parse_number(
            digits,
            u32::MAX as nat,
        ) {
            Some(n) => if 32 <= n <= 2048 {
                Some(n as u32)
            } else {
                None
            },
            None => None,
        }),
{
    let p = "icon-"@ + digits + ".png"@;
    assert(p =~= "icon-"@ + (digits + ".png"@));
    text::parts_are_found(Seq::empty(), "icon-"@, digits + ".png"@);
    text::parts_are_found(digits, ".png"@, Seq::empty());
    if icon_size(path) is Some {
        text::found_parts_are_there(path, "icon-"@);
        let rest = text::after_prefix(path, "icon-"@)->0;
        text::found_parts_are_there(rest, ".png"@);
        let d = text::before_suffix(rest, ".png"@)->0;
        assert(path =~= "icon-"@ + d + ".png"@);
    }
}

/// The path of a `Forwarded` header is that of the first part that names one, with the quotes
/// off; parts that name none are passed over.
pub proof fn forwarded_paths_are_found_in_order(
    before: Seq<Seq<char>>,
    part: Seq<char>,
    after: Seq<Seq<char>>,
)
    requires
        forall|i: int|
            0 <= i < before.len() ==> !text::begins(
                text::trimmed(#[trigger] before[i], CharClass::Whitespace),
                "path="@,
            ),
    ensures
        text::after_prefix(
            text::trimmed(part, CharClass::Whitespace),
            "path="@,
        ) matches Some(path) ==> forwarded_path(before + seq![part] + after) == Some(
            text::trimmed(path, CharClass::Is('"')),
        ),
        forwarded_path(before) is None,
    decreases before.len(),
{
    let all = before + seq![part] + after;
    if before.len() > 0 {
        let rest = before.drop_first();
        assert forall|i: int| 0 <= i < rest.len() implies !text::begins(
            text::trimmed(#[trigger] rest[i], CharClass::Whitespace),
            "path="@,
        ) by {
            assert(rest[i] == before[i + 1]);
        }
        forwarded_paths_are_found_in_order(rest, part, after);
        assert(all.drop_first() =~= rest + seq![part] + after);
        assert(all[0] == before[0]);
    } else {
        assert(all[0] == part);
    }
}

/// Only slashes at the end are taken off, and all of them, but that one character is left.
pub proof fn only_slashes_are_taken_off(s: Seq<char>)
    ensures
        ({
            let t = without_slashes(s);
            &&& t.len() <= s.len()
            &&& s.take(t.len() as int) == t
            &&& forall|i: int| t.len() <= i < s.len() ==> #[trigger] s[i] == '/'
            &&& t.len() > 1 ==> t.last() != '/'
            &&& s.len() > 0 ==> t.len() > 0
        }),
    decreases s.len(),
{
    if s.len() > 1 && s.last() == '/' {
        let r = s.drop_last();
        only_slashes_are_taken_off(r);
        let t = without_slashes(r);
        assert(s.take(t.len() as int) =~= r.take(t.len() as int));
        assert forall|i: int| t.len() <= i < s.len() implies #[trigger] s[i] == '/' by {
            if i < r.len() {
                assert(r[i] == s[i]);
            }
        }
    } else {
        assert(s.take(s.len() as int) =~= s);
    }
}

/// A slash at the end of a path changes nothing, nor does one missing at its beginning.
pub proof fn slashes_at_the_ends_do_not_count(s: Seq<char>)
    requires
        s.len() > 0,
        text::trimmed(s, CharClass::Whitespace) == s,
        text::trimmed(s.push('/'), CharClass::Whitespace) == s.push('/'),
        text::trimmed(seq!['/'] + s, CharClass::Whitespace) == seq!['/'] + s,
    ensures
        normal_path(s.push('/')) == normal_path(s),
        s[0] != '/' ==> normal_path(seq!['/'] + s) == normal_path(s),
{
    let t = if s[0] == '/' {
        s
    } else {
        seq!['/'] + s
    };
    let u = s.push('/');
    assert(u[0] == s[0]);
    assert((seq!['/'] + s)[0] == '/');
    assert(seq!['/'] + u =~= (seq!['/'] + s).push('/'));
    assert(t.push('/').drop_last() =~= t);
    assert(t.push('/').last() == '/');
    assert(without_slashes(t.push('/')) == without_slashes(t));
}

/// Where the page is mounted goes by the first header that says something: the prefix, then the
/// path, then the forwarded path; where none does, it is the root.
pub proof fn the_first_header_counts(
    prefix: Seq<char>,
    path: Seq<char>,
    forwarded: Option<Seq<char>>,
    none: Option<Seq<char>>,
    other: Option<Seq<char>>,
)
    requires
        none matches Some(v) ==> v.len() == 0,
        prefix.len() > 0,
        path.len() > 0,
    ensures
        mount(Some(prefix), other, forwarded) == normal_path(prefix),
        mount(none, Some(path), forwarded) == normal_path(path),
        mount(none, none, None) == normal_path(seq!['/']),
        forwarded matches Some(v) ==> (forwarded_path(text::pieces(v, ';')) matches Some(p)
            ==> mount(none, none, forwarded) == normal_path(p)),
        forwarded matches Some(v) ==> (forwarded_path(text::pieces(v, ';')) is None ==> mount(
            none,
            none,
            forwarded,
        ) == normal_path(seq!['/'])),
{
    reveal_strlit("/");
    assert("/"@ =~= seq!['/']);
}

/// The home of a page is where it is mounted, with one slash at its end.
pub proof fn homes_end_in_one_slash(base: Seq<char>)
    ensures
        base == seq!['/'] ==> home(base) == base,
        base != seq!['/'] ==> home(base) == base.push('/'),
{
    reveal_strlit("/");
    assert("/"@ =~= seq!['/']);
    if base != seq!['/'] {
        assert(base + "/"@ =~= base.push('/'));
    }
}

/// A manifest starts at the page's home and stays below it, whatever it said before.
pub proof fn manifests_start_at_home(members: Map<Seq<char>, Seq<char>>, base: Seq<char>)
    ensures
        manifest_members(members, base).contains_key("start_url"@),
        manifest_members(members, base)["start_url"@] == json_quoted(home(base)),
        manifest_members(members, base).contains_key("scope"@),
        manifest_members(members, base)["scope"@] == json_quoted(home(base)),
{
    reveal_strlit("start_url");
    reveal_strlit("scope");
    assert("start_url"@.len() != "scope"@.len());
}

/// A quoted text is quoted character by character: quotes and backslashes get a backslash, the
/// characters below the space an escape, and all others stand for themselves.
pub proof fn texts_are_quoted_one_by_one(a: Seq<char>, b: Seq<char>, c: char)
    ensures
        json_chars(a + b) == json_chars(a) + json_chars(b),
        json_chars(seq![c]) == json_char(c),
        c as u32 >= 0x20 && c != '"' && c != '\\' ==> json_char(c) == seq![c],
        c == '"' || c == '\\' || (c as u32) < 0x20 ==> json_char(c).len() >= 2 && json_char(c)[0]
            == '\\',
        c == '"' || c == '\\' ==> json_char(c)[1] == c,
        json_quoted(a).len() == json_chars(a).len() + 2,
        json_quoted(a)[0] == '"',
        json_quoted(a).last() == '"',
    decreases b.len(),
{
    reveal_with_fuel(json_chars, 2);
    assert(seq![c].drop_last() =~= Seq::<char>::empty());
    assert(seq![c].last() == c);
    assert(json_chars(seq![c]) =~= json_char(c));
    if b.len() > 0 {
        texts_are_quoted_one_by_one(a, b.drop_last(), c);
        assert((a + b).drop_last() =~= a + b.drop_last());
        assert((a + b).last() == b.last());
        assert(json_chars(a + b) =~= json_chars(a) + json_chars(b));
    } else {
        assert(a + b =~= a);
        assert(json_chars(a) + json_chars(b) =~= json_chars(a));
    }
}

/// A character below the space that has no letter of its own is escaped by its code in two small
/// hexadecimal digits.
pub proof fn control_characters_are_escaped_by_code(c: char)
    requires
        (c as u32) < 0x20,
    ensures
        c as u32 == 8 ==> json_char(c) == seq!['\\', 'b'],
        c as u32 == 9 ==> json_char(c) == seq!['\\', 't'],
        c as u32 == 10 ==> json_char(c) == seq!['\\', 'n'],
        c as u32 == 12 ==> json_char(c) == seq!['\\', 'f'],
        c as u32 == 13 ==> json_char(c) == seq!['\\', 'r'],
        !(8 <= c as u32 <= 10 || 12 <= c as u32 <= 13) ==> {
            let s = json_char(c);
            &&& s.len() == 6
            &&& s.take(4) == seq!['\\', 'u', '0', '0']
            &&& s[4] as int == 48 + c as int / 16
            &&& s[5] as int == if c as int % 16 < 10 {
                48 + c as int % 16
            } else {
                87 + c as int % 16
            }
        },
{
    if !(8 <= c as u32 <= 10 || 12 <= c as u32 <= 13) {
        assert(json_char(c).take(4) =~= seq!['\\', 'u', '0', '0']);
    }
}

} // verus!
