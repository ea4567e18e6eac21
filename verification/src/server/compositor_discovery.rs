//! Finding the graphical session that is captured.
use super::bytes::bytes_ordered;
use crate::text::{self, CharClass};
use vstd::prelude::*;

verus! {

// ----- sessions of logind

/// The first words of the lines that have one.
pub open spec fn first_words(lines: Seq<Seq<char>>) -> Seq<Seq<char>>
    decreases lines.len(),
{
    if lines.len() == 0 {
        Seq::empty()
    } else {
        match text::word(lines.last()) {
            Some(w) => first_words(lines.drop_last()).push(w),
            None => first_words(lines.drop_last()),
        }
    }
}

/// The ids of the sessions that `loginctl list-sessions` prints.
pub fn session_ids(output: &[u8]) -> (r: Vec<String>)
    ensures
        text::views(r@) == first_words(
            text::text_lines(crate::shared::client_datagram::text_of(output@)),
        ),
{
    let text = text::from_utf8_lossy(output);
    let lines = text::lines(text.as_str());
    let ghost all = text::views(lines@);
    let mut r: Vec<String> = Vec::new();
    let mut i: usize = 0;
    while i < lines.len()
        invariant
            i <= lines.len(),
            all == text::views(lines@),
            text::views(r@) == first_words(all.take(i as int)),
        decreases lines.len() - i,
    {
        let ghost before = r@;
        let ghost longer = all.take(i + 1);
        assert(longer.drop_last() =~= all.take(i as int));
        assert(longer.last() == lines@[i as int]@);
        if let Some(word) = text::first_word(lines[i].as_str()) {
            r.push(word.to_owned());
            assert(text::views(r@) =~= text::views(before).push(word@));
        }
        i += 1;
    }
    assert(all.take(all.len() as int) =~= all);
    r
}

/// What is known of a session: its user and its seat.
#[verifier::ext_equal]
pub ghost struct SessionProps {
    pub uid: Option<u32>,
    pub seat: Seq<char>,
}

/// A number as a `u32`.
pub open spec fn as_u32(n: Option<nat>) -> Option<u32> {
    match n {
        Some(n) => Some(n as u32),
        None => None,
    }
}

/// What the lines of `loginctl show-session` say of a session; the last line of each kind
/// counts.
pub open spec fn session_props(lines: Seq<Seq<char>>) -> SessionProps
    decreases lines.len(),
{
    if lines.len() == 0 {
        SessionProps { uid: None, seat: Seq::empty() }
    } else {
        let before = session_props(lines.drop_last());
        match text::after_prefix(lines.last(), "UID="@) {
            Some(v) => SessionProps {
                uid: as_u32(text::parse_number(v, u32::MAX as nat)),
                seat: before.seat,
            },
            None => match text::after_prefix(lines.last(), "Seat="@) {
                Some(v) => SessionProps { uid: before.uid, seat: v },
                None => before,
            },
        }
    }
}

/// Whether a session belongs to a user and has a seat, going by what
/// `loginctl show-session` prints.
pub fn is_seat_session(output: &[u8], uid: u32) -> (r: bool)
    ensures
        r == seated_for(output@, uid),
{
    let text = text::from_utf8_lossy(output);
    let lines = text::lines(text.as_str());
    let ghost all = text::views(lines@);
    let mut session_uid: Option<u32> = None;
    let mut seated: bool = false;
    let mut i: usize = 0;
    while i < lines.len()
        invariant
            i <= lines.len(),
            all == text::views(lines@),
            session_uid == session_props(all.take(i as int)).uid,
            seated == (session_props(all.take(i as int)).seat.len() > 0),
        decreases lines.len() - i,
    {
        let ghost longer = all.take(i + 1);
        assert(longer.drop_last() =~= all.take(i as int));
        assert(longer.last() == lines@[i as int]@);
        let line = lines[i].as_str();
        if let Some(v) = text::strip_prefix(line, "UID=") {
            session_uid =
            match text::parse_unsigned(v, u32::MAX as u64) {
                Some(n) => Some(n as u32),
                None => None,
            };
        } else if let Some(v) = text::strip_prefix(line, "Seat=") {
            seated = v.unicode_len() > 0;
        }
        i += 1;
    }
    assert(all.take(all.len() as int) =~= all);
    match session_uid {
        Some(n) => n == uid && seated,
        None => false,
    }
}

/// Whether a session belongs to a user and has a seat.
pub open spec fn seated_for(output: Seq<u8>, uid: u32) -> bool {
    let p = session_props(text::text_lines(crate::shared::client_datagram::text_of(output)));
    p.uid == Some(uid) && p.seat.len() > 0
}

/// The search for the first session of a user that has a seat.
pub struct SeatSearch {
    ids: Vec<String>,
    next: usize,
}

impl SeatSearch {
    /// The sessions that were not asked about yet.
    pub closed spec fn open_ids(&self) -> Seq<Seq<char>> {
        text::views(self.ids@).skip(self.next as int)
    }

    #[verifier::type_invariant]
    spec fn in_range(self) -> bool {
        self.next <= self.ids@.len()
    }

    /// The search among the sessions that `loginctl list-sessions` prints.
    pub fn new(output: &[u8]) -> (s: SeatSearch)
        ensures
            s.open_ids() == first_words(
                text::text_lines(crate::shared::client_datagram::text_of(output@)),
            ),
    {
        let ids = session_ids(output);
        assert(text::views(ids@).skip(0) =~= text::views(ids@));
        SeatSearch { ids, next: 0 }
    }

    /// The session to ask about next.
    pub fn current(&self) -> (r: Option<String>)
        ensures
            match r {
                Some(id) => self.open_ids().len() > 0 && id@ == self.open_ids()[0],
                None => self.open_ids().len() == 0,
            },
    {
        proof {
            use_type_invariant(self);
        }
        if self.next < self.ids.len() {
            Some(self.ids[self.next].clone())
        } else {
            None
        }
    }

    /// Takes what `loginctl show-session` printed about that session, unless it failed. Says
    /// whether the session is the one, and goes on to the next one otherwise.
    pub fn answer(&mut self, props: Option<&[u8]>, uid: u32) -> (found: bool)
        requires
            old(self).open_ids().len() > 0,
        ensures
            found == (props matches Some(output) && seated_for(output@, uid)),
            final(self).open_ids() == (if found {
                old(self).open_ids()
            } else {
                old(self).open_ids().drop_first()
            }),
    {
        proof {
            use_type_invariant(&*self);
        }
        if let Some(output) = props {
            if is_seat_session(output, uid) {
                return true;
            }
        }
        assert(self.next < self.ids.len());
        assert(text::views(self.ids@).skip(self.next + 1) =~= old(self).open_ids().drop_first());
        self.next = self.next + 1;
        false
    }
}

/// The sessions that are left to ask about after these answers, with the one that was found in
/// front.
pub open spec fn ids_after(ids: Seq<Seq<char>>, answers: Seq<Option<Seq<u8>>>, uid: u32) -> Seq<
    Seq<char>,
>
    decreases answers.len(),
{
    if answers.len() == 0 || ids.len() == 0 || (answers[0] matches Some(output) && seated_for(
        output,
        uid,
    )) {
        ids
    } else {
        ids_after(ids.drop_first(), answers.drop_first(), uid)
    }
}

/// The search ends at the first session whose answer says that it belongs to the user and has a
/// seat.
pub proof fn the_first_seat_is_found(
    ids: Seq<Seq<char>>,
    answers: Seq<Option<Seq<u8>>>,
    uid: u32,
    n: int,
)
    requires
        0 <= n < ids.len(),
        n < answers.len(),
        answers[n] matches Some(output) && seated_for(output, uid),
        forall|k: int|
            0 <= k < n ==> !((#[trigger] answers[k]) matches Some(output) && seated_for(
                output,
                uid,
            )),
    ensures
        ids_after(ids, answers, uid) == ids.skip(n),
        ids_after(ids, answers, uid)[0] == ids[n],
    decreases n,
{
    if n == 0 {
        assert(ids.skip(0) =~= ids);
    } else {
        let rest = answers.drop_first();
        assert(!(answers[0] matches Some(output) && seated_for(output, uid)));
        assert(rest[n - 1] == answers[n]);
        assert forall|k: int| 0 <= k < n - 1 implies !((#[trigger] rest[k]) matches Some(output)
            && seated_for(output, uid)) by {
            assert(rest[k] == answers[k + 1]);
        }
        the_first_seat_is_found(ids.drop_first(), rest, uid, n - 1);
        assert(ids.drop_first().skip(n - 1) =~= ids.skip(n));
    }
}

// ----- the runtime directory

/// What came of the search for a session of the user that has a seat.
pub enum SessionLookup {
    Found(String),
    /// There is none.
    NoSession,
    /// logind cannot be asked.
    Unavailable,
}

/// What to do about `XDG_RUNTIME_DIR`.
pub enum RuntimeDir {
    /// It is set already.
    Keep,
    /// Set it to this.
    Use(String),
    /// There is nothing to capture, for this reason.
    Fail(String),
}

/// Where the runtime directory of a user is by convention.
pub open spec fn conventional_dir(uid: u32) -> Seq<char> {
    "/run/user/"@ + text::decimal(uid as nat)
}

/// Decides about `XDG_RUNTIME_DIR`: where it is not set, the conventional directory is used
/// if the user has a session with a seat, or if logind cannot be asked and the directory
/// exists.
pub fn runtime_dir(is_set: bool, uid: u32, lookup: &SessionLookup, dir_exists: bool) -> (r:
    RuntimeDir)
    ensures
        match r {
            RuntimeDir::Keep => is_set,
            RuntimeDir::Use(dir) => !is_set && dir@ == conventional_dir(uid) && (lookup is Found
                || (lookup is Unavailable && dir_exists)),
            RuntimeDir::Fail(reason) => !is_set && match *lookup {
                SessionLookup::Found(_) => false,
                SessionLookup::NoSession => reason@ == "No seat-bearing session found for uid "@
                    + text::decimal(uid as nat)
                    + "; cannot determine XDG_RUNTIME_DIR. A graphical session is required to capture a display."@,
                SessionLookup::Unavailable => !dir_exists && reason@
                    == "Could not determine XDG_RUNTIME_DIR: no logind session and "@
                    + conventional_dir(uid)
                    + " does not exist. Set XDG_RUNTIME_DIR manually or start a graphical session."@,
            },
        },
{
    if is_set {
        return RuntimeDir::Keep;
    }
    let mut dir = "/run/user/".to_owned();
    text::push_decimal(&mut dir, uid as u64);
    match lookup {
        SessionLookup::Found(_) => RuntimeDir::Use(dir),
        SessionLookup::NoSession => {
            let mut reason = "No seat-bearing session found for uid ".to_owned();
            text::push_decimal(&mut reason, uid as u64);
            reason.append(
                "; cannot determine XDG_RUNTIME_DIR. A graphical session is required to capture a display.",
            );
            RuntimeDir::Fail(reason)
        },
        SessionLookup::Unavailable => {
            if dir_exists {
                RuntimeDir::Use(dir)
            } else {
                let mut reason =
                    "Could not determine XDG_RUNTIME_DIR: no logind session and ".to_owned();
                reason.append(dir.as_str());
                reason.append(
                    " does not exist. Set XDG_RUNTIME_DIR manually or start a graphical session.",
                );
                RuntimeDir::Fail(reason)
            }
        },
    }
}

// ----- the desktop

/// What follows the first `Desktop=` at the start of a line.
pub open spec fn desktop_line(lines: Seq<Seq<char>>) -> Option<Seq<char>>
    decreases lines.len(),
{
    if lines.len() == 0 {
        None
    } else {
        match text::after_prefix(lines[0], "Desktop="@) {
            Some(v) => Some(v),
            None => desktop_line(lines.drop_first()),
        }
    }
}

/// The desktop that logind knows, where it knows one.
pub open spec fn logind_desktop(output: Seq<u8>) -> Option<Seq<char>> {
    match desktop_line(text::text_lines(crate::shared::client_datagram::text_of(output))) {
        Some(v) => if text::trimmed(v, CharClass::Whitespace).len() > 0 {
            Some(text::trimmed(v, CharClass::Whitespace))
        } else {
            None
        },
        None => None,
    }
}

/// The desktop that logind knows, going by what `loginctl show-session` prints.
pub fn desktop_property(output: &[u8]) -> (r: Option<String>)
    ensures
        (match r {
            Some(s) => Some(s@),
            None => None,
        }) == logind_desktop(output@),
{
    let text = text::from_utf8_lossy(output);
    let lines = text::lines(text.as_str());
    let ghost all = text::views(lines@);
    let mut i: usize = 0;
    assert(all.skip(0) =~= all);
    while i < lines.len()
        invariant
            i <= lines.len(),
            all == text::views(lines@),
            all == text::text_lines(crate::shared::client_datagram::text_of(output@)),
            desktop_line(all) == desktop_line(all.skip(i as int)),
        decreases lines.len() - i,
    {
        let ghost rest = all.skip(i as int);
        assert(rest[0] == lines@[i as int]@);
        assert(rest.drop_first() =~= all.skip(i + 1));
        if let Some(v) = text::strip_prefix(lines[i].as_str(), "Desktop=") {
            let desktop = text::trim(v, CharClass::Whitespace);
            if desktop.unicode_len() > 0 {
                return Some(desktop.to_owned());
            }
            return None;
        }
        i += 1;
    }
    None
}

/// The compositors that are looked for, in this order, and the desktops that they make up.
pub open spec fn compositor_table() -> Seq<(Seq<char>, Seq<char>)> {
    seq![
        ("kwin_wayland"@, "KDE"@),
        ("kwin_x11"@, "KDE"@),
        ("gnome-shell"@, "GNOME"@),
        ("sway"@, "sway"@),
        ("Hyprland"@, "Hyprland"@),
        ("weston"@, "weston"@),
        ("river"@, "river"@),
        ("wayfire"@, "wayfire"@),
        ("labwc"@, "labwc"@),
        ("cosmic-comp"@, "COSMIC"@),
    ]
}

/// How many compositors are looked for.
pub const COMPOSITORS: usize = 10;

/// A row of the table of compositors.
pub fn compositor(i: usize) -> (r: (&'static str, &'static str))
    requires
        i < COMPOSITORS,
    ensures
        (r.0@, r.1@) == compositor_table()[i as int],
{
    match i {
        0 => ("kwin_wayland", "KDE"),
        1 => ("kwin_x11", "KDE"),
        2 => ("gnome-shell", "GNOME"),
        3 => ("sway", "sway"),
        4 => ("Hyprland", "Hyprland"),
        5 => ("weston", "weston"),
        6 => ("river", "river"),
        7 => ("wayfire", "wayfire"),
        8 => ("labwc", "labwc"),
        _ => ("cosmic-comp", "COSMIC"),
    }
}

/// Whether `pgrep` printed something, where it succeeded.
pub open spec fn pgrep_found(output: Option<Seq<u8>>) -> bool {
    output matches Some(printed) && printed.len() > 0
}

/// Whether a process of this name runs: `pgrep` found it, or it is among the names of all
/// processes, as `/proc` shows them.
pub open spec fn is_running(
    name: Seq<char>,
    pgrep: Option<Seq<u8>>,
    processes: Seq<Seq<char>>,
) -> bool {
    pgrep_found(pgrep) || exists|i: int|
        0 <= i < processes.len() && text::trimmed(
            #[trigger] processes[i],
            CharClass::Whitespace,
        ) == name
}

pub open spec fn output_view(output: Option<Vec<u8>>) -> Option<Seq<u8>> {
    match output {
        Some(v) => Some(v@),
        None => None,
    }
}

/// Whether a process of this name runs.
pub fn compositor_running(name: &str, pgrep: &Option<Vec<u8>>, processes: &Vec<String>) -> (r: bool)
    ensures
        r == is_running(name@, output_view(*pgrep), text::views(processes@)),
{
    if let Some(printed) = pgrep {
        if printed.len() > 0 {
            return true;
        }
    }
    let ghost all = text::views(processes@);
    let mut i: usize = 0;
    while i < processes.len()
        invariant
            i <= processes.len(),
            all == text::views(processes@),
            forall|j: int|
                0 <= j < i ==> text::trimmed(#[trigger] all[j], CharClass::Whitespace) != name@,
        decreases processes.len() - i,
    {
        let comm = text::trim(processes[i].as_str(), CharClass::Whitespace);
        if text::str_eq(comm, name) {
            assert(text::trimmed(all[i as int], CharClass::Whitespace) == name@);
            return true;
        }
        assert(all[i as int] == processes@[i as int]@);
        i += 1;
    }
    false
}

/// Whether the compositor in a row of the table runs.
pub open spec fn row_running(
    i: int,
    pgrep: Seq<Option<Vec<u8>>>,
    processes: Seq<Seq<char>>,
) -> bool {
    is_running(compositor_table()[i].0, output_view(pgrep[i]), processes)
}

/// The desktop of the first compositor of the table that runs, from what `pgrep` printed for
/// each row and the names of all processes.
pub fn desktop_from_compositor(pgrep: &Vec<Option<Vec<u8>>>, processes: &Vec<String>) -> (r: Option<
    &'static str,
>)
    requires
        pgrep@.len() == COMPOSITORS,
    ensures
        match r {
            Some(desktop) => exists|i: int|
                0 <= i < COMPOSITORS && desktop@ == compositor_table()[i].1
                    && #[trigger] row_running(i, pgrep@, text::views(processes@)) && forall|j: int|
                    0 <= j < i ==> !#[trigger] row_running(j, pgrep@, text::views(processes@)),
            None => forall|j: int|
                0 <= j < COMPOSITORS ==> !#[trigger] row_running(
                    j,
                    pgrep@,
                    text::views(processes@),
                ),
        },
{
    let mut i: usize = 0;
    while i < COMPOSITORS
        invariant
            i <= COMPOSITORS,
            pgrep@.len() == COMPOSITORS,
            forall|j: int|
                0 <= j < i ==> !#[trigger] row_running(j, pgrep@, text::views(processes@)),
        decreases COMPOSITORS - i,
    {
        let (process, desktop) = compositor(i);
        if compositor_running(process, &pgrep[i], processes) {
            assert(row_running(i as int, pgrep@, text::views(processes@)));
            return Some(desktop);
        }
        i += 1;
    }
    None
}

/// What to do about `XDG_CURRENT_DESKTOP`.
pub enum DesktopChoice {
    /// It is set already.
    Keep,
    /// Set it to this.
    Use(String),
    /// It stays unset.
    Unknown,
    /// logind cannot be asked.
    Fail,
}

/// What a variable of the environment says, unless it is empty.
pub open spec fn nonempty(value: Option<Seq<char>>) -> Option<Seq<char>> {
    match value {
        Some(v) => if v.len() > 0 {
            Some(v)
        } else {
            None
        },
        None => None,
    }
}

/// The desktop where `XDG_CURRENT_DESKTOP` does not name it: as logind knows it, else as the
/// compositor tells, else as the session names it.
pub open spec fn desktop(
    logind: Option<Seq<u8>>,
    compositor: Option<Seq<char>>,
    session: Option<Seq<char>>,
) -> Option<Seq<char>> {
    let known = match logind {
        Some(output) => logind_desktop(output),
        None => None,
    };
    match known {
        Some(d) => Some(d),
        None => match compositor {
            Some(d) => Some(d),
            None => nonempty(session),
        },
    }
}

/// Decides about `XDG_CURRENT_DESKTOP`, from the search for the session, from what
/// `loginctl show-session` printed about the desktop of a session that was found, from the
/// compositor that runs and from `DESKTOP_SESSION`.
pub fn current_desktop(
    is_set: bool,
    lookup: &SessionLookup,
    logind: Option<&[u8]>,
    compositor: Option<&'static str>,
    session: Option<&str>,
) -> (r: DesktopChoice)
    ensures
        if is_set {
            r is Keep
        } else if lookup is Unavailable {
            r is Fail
        } else {
            match desktop(
                if lookup is Found && logind is Some {
                    Some(logind->0@)
                } else {
                    None
                },
                text::str_view(compositor),
                text::str_view(session),
            ) {
                Some(d) => r matches DesktopChoice::Use(s) && s@ == d,
                None => r is Unknown,
            }
        },
{
    if is_set {
        return DesktopChoice::Keep;
    }
    match lookup {
        SessionLookup::Unavailable => {
            return DesktopChoice::Fail;
        },
        SessionLookup::Found(_) => {
            if let Some(output) = logind {
                if let Some(d) = desktop_property(output) {
                    return DesktopChoice::Use(d);
                }
            }
        },
        SessionLookup::NoSession => {},
    }
    if let Some(d) = compositor {
        return DesktopChoice::Use(d.to_owned());
    }
    if let Some(d) = session {
        if d.unicode_len() > 0 {
            return DesktopChoice::Use(d.to_owned());
        }
    }
    DesktopChoice::Unknown
}

// ----- the display

/// The number of a Wayland socket: what follows `wayland-`.
pub open spec fn socket_number(name: Seq<char>) -> Option<nat> {
    match text::after_prefix(name, "wayland-"@) {
        Some(rest) => text::parse_number(rest, u32::MAX as nat),
        None => None,
    }
}

/// Whether the socket `a` comes before the socket `b`, or is it: by the number, then by the
/// name.
pub open spec fn socket_before(a: Seq<char>, b: Seq<char>) -> bool {
    let m = socket_number(a)->0;
    let n = socket_number(b)->0;
    m < n || (m == n && super::bytes::ordered(
        vstd::utf8::encode_utf8(a),
        vstd::utf8::encode_utf8(b),
    ))
}

/// Whether `name` is the socket to connect to: the first one of those that have a number, and
/// `wayland-0` where there is none.
pub open spec fn is_display(sockets: Seq<Seq<char>>, name: Seq<char>) -> bool {
    if exists|i: int| 0 <= i < sockets.len() && socket_number(#[trigger] sockets[i]) is Some {
        &&& sockets.contains(name)
        &&& socket_number(name) is Some
        &&& forall|i: int|
            0 <= i < sockets.len() && socket_number(#[trigger] sockets[i]) is Some
                ==> socket_before(name, sockets[i])
    } else {
        name == "wayland-0"@
    }
}

/// What to set `WAYLAND_DISPLAY` to, where it is not set and there is a runtime directory: the
/// display to connect to, among the sockets in that directory.
pub fn wayland_display(is_set: bool, has_runtime_dir: bool, sockets: &Vec<String>) -> (r: Option<
    String,
>)
    ensures
        match r {
            Some(name) => !is_set && has_runtime_dir && is_display(text::views(sockets@), name@),
            None => is_set || !has_runtime_dir,
        },
{
    if is_set || !has_runtime_dir {
        return None;
    }
    let ghost all = text::views(sockets@);
    let mut best: Option<usize> = None;
    let mut best_number: u64 = 0;
    let mut i: usize = 0;
    while i < sockets.len()
        invariant
            i <= sockets.len(),
            all == text::views(sockets@),
            match best {
                None => forall|j: int| 0 <= j < i ==> socket_number(#[trigger] all[j]) is None,
                Some(b) => {
                    &&& b < i
                    &&& socket_number(all[b as int]) == Some(best_number as nat)
                    &&& forall|j: int|
                        0 <= j < i && socket_number(#[trigger] all[j]) is Some ==> socket_before(
                            all[b as int],
                            all[j],
                        )
                },
            },
        decreases sockets.len() - i,
    {
        let name = sockets[i].as_str();
        assert(name@ == all[i as int]);
        let number: Option<u64> = match text::strip_prefix(name, "wayland-") {
            Some(rest) => text::parse_unsigned(rest, u32::MAX as u64),
            None => None,
        };
        if let Some(n) = number {
            let mut better: bool = true;
            if let Some(b) = best {
                assert(sockets@[b as int]@ == all[b as int]);
                better =
                n < best_number || (n == best_number && bytes_ordered(
                    name.as_bytes(),
                    sockets[b].as_str().as_bytes(),
                ));
                proof {
                    let x = vstd::utf8::encode_utf8(name@);
                    let y = vstd::utf8::encode_utf8(all[b as int]);
                    super::bytes::order_is_total(x, y);
                    assert forall|j: int|
                        0 <= j < i && socket_number(#[trigger] all[j]) is Some
                            && better implies socket_before(name@, all[j]) by {
                        let z = vstd::utf8::encode_utf8(all[j]);
                        if n == best_number && socket_number(all[j])->0 == n {
                            super::bytes::order_is_transitive(x, y, z);
                        }
                    }
                }
            }
            if better {
                best = Some(i);
                best_number = n;
                proof {
                    let x = vstd::utf8::encode_utf8(name@);
                    super::bytes::order_is_total(x, x);
                }
            }
        }
        i += 1;
    }
    match best {
        Some(b) => {
            assert(all[b as int] == sockets@[b as int]@);
            assert(all.contains(all[b as int]));
            Some(sockets[b].clone())
        },
        None => Some("wayland-0".to_owned()),
    }
}

/// The sessions are the first words of the lines, line by line, in their order; a line without
/// a word names none.
pub proof fn sessions_are_read_line_by_line(lines: Seq<Seq<char>>, line: Seq<char>)
    ensures
        first_words(Seq::empty()).len() == 0,
        text::word(line) matches Some(w) ==> first_words(lines.push(line)) == first_words(
            lines,
        ).push(w),
        text::word(line) is None ==> first_words(lines.push(line)) == first_words(lines),
{
    assert(lines.push(line).drop_last() =~= lines);
}

/// The user and the seat of a session are those that are named last; other lines do not matter,
/// and each of both leaves the other alone.
pub proof fn the_last_properties_count(lines: Seq<Seq<char>>, value: Seq<char>, line: Seq<char>)
    ensures
        session_props(Seq::empty()).uid is None,
        session_props(Seq::empty()).seat.len() == 0,
        session_props(lines.push("UID="@ + value)).uid == as_u32(
            text::parse_number(value, 4294967295),
        ),
        session_props(lines.push("UID="@ + value)).seat == session_props(lines).seat,
        session_props(lines.push("Seat="@ + value)).seat == value,
        session_props(lines.push("Seat="@ + value)).uid == session_props(lines).uid,
        !text::begins(line, "UID="@) && !text::begins(line, "Seat="@) ==> session_props(
            lines.push(line),
        ) == session_props(lines),
{
    text::parts_are_found(Seq::empty(), "UID="@, value);
    text::parts_are_found(Seq::empty(), "Seat="@, value);
    assert(lines.push("UID="@ + value).drop_last() =~= lines);
    assert(lines.push("Seat="@ + value).drop_last() =~= lines);
    assert(lines.push(line).drop_last() =~= lines);
    let s = "Seat="@ + value;
    reveal_strlit("UID=");
    reveal_strlit("Seat=");
    if text::begins(s, "UID="@) {
        assert(s.subrange(0, 4)[0] == 'U');
        assert(s.subrange(0, 4)[0] == s[0]);
    }
}

/// The desktop is that of the first line that names one.
pub proof fn the_first_desktop_counts(
    before: Seq<Seq<char>>,
    value: Seq<char>,
    after: Seq<Seq<char>>,
)
    requires
        forall|i: int|
            0 <= i < before.len() ==> !text::begins(#[trigger] before[i], "Desktop="@),
    ensures
        desktop_line(before + seq!["Desktop="@ + value] + after) == Some(value),
        desktop_line(before) is None,
    decreases before.len(),
{
    let all = before + seq!["Desktop="@ + value] + after;
    text::parts_are_found(Seq::empty(), "Desktop="@, value);
    if before.len() > 0 {
        let rest = before.drop_first();
        assert forall|i: int| 0 <= i < rest.len() implies !text::begins(
            #[trigger] rest[i],
            "Desktop="@,
        ) by {
            assert(rest[i] == before[i + 1]);
        }
        the_first_desktop_counts(rest, value, after);
        assert(all.drop_first() =~= rest + seq!["Desktop="@ + value] + after);
        assert(all[0] == before[0]);
    } else {
        assert(all[0] == "Desktop="@ + value);
    }
}

/// The desktop that logind names comes before that of a running compositor, and this one before
/// the one the session was started with; an empty name is no name.
pub proof fn the_best_known_desktop_counts(
    logind: Seq<u8>,
    compositor: Seq<char>,
    session: Seq<char>,
    any: Option<Seq<char>>,
    other: Option<Seq<char>>,
)
    ensures
        logind_desktop(logind) matches Some(d) ==> desktop(Some(logind), any, other) == Some(d),
        logind_desktop(logind) is None ==> desktop(Some(logind), any, other) == desktop(
            None,
            any,
            other,
        ),
        desktop(None, Some(compositor), other) == Some(compositor),
        session.len() > 0 ==> desktop(None, None, Some(session)) == Some(session),
        session.len() == 0 ==> desktop(None, None, Some(session)) is None,
        desktop(None, None, None) is None,
{
}

/// What logind names is trimmed and never empty.
pub proof fn logind_desktops_are_not_blank(output: Seq<u8>)
    ensures
        logind_desktop(output) matches Some(d) ==> d.len() > 0 && !text::is_whitespace(d[0])
            && !text::is_whitespace(d.last()),
{
    let lines = text::text_lines(crate::shared::client_datagram::text_of(output));
    if let Some(v) = desktop_line(lines) {
        let (i, j) = text::trimming_takes_off_both_ends(v, CharClass::Whitespace);
        let t = v.subrange(i, j);
        if i < j {
            assert(t[0] == v[i] && t.last() == v[j - 1]);
        }
    }
}

/// A socket has the number behind `wayland-`, and anything else has none.
pub proof fn sockets_are_numbered(n: nat, name: Seq<char>)
    ensures
        n <= 4294967295 ==> socket_number("wayland-"@ + text::decimal(n)) == Some(n),
        n > 4294967295 ==> socket_number("wayland-"@ + text::decimal(n)) is None,
        socket_number(name) is Some ==> text::begins(name, "wayland-"@),
{
    text::parts_are_found(Seq::empty(), "wayland-"@, text::decimal(n));
    text::decimal_digits(n);
    if n <= 4294967295 {
        text::decimal_reads_back(n, 4294967295);
    }
    assert(text::is_digit(text::decimal(n)[0]));
}

/// The socket with the lower number comes first; of two with the same number, the one whose name
/// does.
pub proof fn lower_sockets_come_first(a: Seq<char>, b: Seq<char>, m: nat, n: nat)
    requires
        socket_number(a) == Some(m),
        socket_number(b) == Some(n),
    ensures
        m < n ==> socket_before(a, b) && !socket_before(b, a),
        m == n ==> socket_before(a, b) || socket_before(b, a),
{
    super::bytes::order_is_total(vstd::utf8::encode_utf8(a), vstd::utf8::encode_utf8(b));
}

/// A compositor runs where it was found by name, or where a process has its name.
pub proof fn compositors_run_where_found(
    name: Seq<char>,
    printed: Seq<u8>,
    processes: Seq<Seq<char>>,
    i: int,
)
    ensures
        printed.len() > 0 ==> is_running(name, Some(printed), processes),
        0 <= i < processes.len() && processes[i] == name && text::trimmed(
            name,
            CharClass::Whitespace,
        ) == name ==> is_running(name, None, processes),
        !is_running(name, None, Seq::empty()),
        !is_running(name, Some(Seq::empty()), Seq::empty()),
{
}

/// The compositors, and the desktop that each one stands for: those that are not listed with a
/// desktop of another name stand for themselves.
pub proof fn compositors_stand_for_desktops(i: int)
    requires
        0 <= i < compositor_table().len(),
    ensures
        compositor_table().len() == 10,
        ({
            let (name, desktop) = compositor_table()[i];
            &&& text::begins(name, "kwin_"@) ==> desktop == "KDE"@
            &&& name == "gnome-shell"@ ==> desktop == "GNOME"@
            &&& name == "cosmic-comp"@ ==> desktop == "COSMIC"@
            &&& !text::begins(name, "kwin_"@) && name != "gnome-shell"@ && name != "cosmic-comp"@
                ==> desktop == name
        }),
{
    reveal_strlit("kwin_");
    reveal_strlit("kwin_wayland");
    reveal_strlit("kwin_x11");
    reveal_strlit("gnome-shell");
    reveal_strlit("cosmic-comp");
    reveal_strlit("sway");
    reveal_strlit("Hyprland");
    reveal_strlit("weston");
    reveal_strlit("river");
    reveal_strlit("wayfire");
    reveal_strlit("labwc");
    assert("kwin_wayland"@.subrange(0, 5) =~= "kwin_"@);
    assert("kwin_x11"@.subrange(0, 5) =~= "kwin_"@);
    assert(text::begins("kwin_wayland"@, "kwin_"@) && text::begins("kwin_x11"@, "kwin_"@));
    assert("gnome-shell"@[0] == 'g' && "cosmic-comp"@[0] == 'c');
    assert("sway"@[0] == 's' && "Hyprland"@[0] == 'H' && "weston"@[0] == 'w' && "river"@[0] == 'r'
        && "wayfire"@[0] == 'w' && "labwc"@[0] == 'l');
    assert("kwin_wayland"@[0] == 'k' && "kwin_x11"@[0] == 'k');
    let name = compositor_table()[i].0;
    if text::begins(name, "kwin_"@) {
        assert(name.subrange(0, 5)[0] == 'k');
        assert(name.subrange(0, 5)[0] == name[0]);
    }
}

/// The runtime directory of a user goes by the user's number.
pub proof fn directories_go_by_number(uid: u32)
    ensures
        text::after_prefix(conventional_dir(uid), "/run/user/"@) == Some(
            text::decimal(uid as nat),
        ),
{
    text::parts_are_found(Seq::empty(), "/run/user/"@, text::decimal(uid as nat));
}

/// A session has a seat for a user where its properties name a seat and just this user.
pub proof fn seats_belong_to_users(output: Seq<u8>, uid: u32)
    ensures
        ({
            let p = session_props(
                text::text_lines(crate::shared::client_datagram::text_of(output)),
            );
            &&& p.uid is None ==> !seated_for(output, uid)
            &&& p.seat.len() == 0 ==> !seated_for(output, uid)
            &&& p.uid matches Some(user) ==> (p.seat.len() > 0 ==> (seated_for(output, uid) <==> user
                == uid))
        }),
{
}

} // verus!
