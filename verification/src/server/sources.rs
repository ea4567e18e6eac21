//! The tokens that restore a choice of what is captured.
use vstd::prelude::*;

verus! {

/// A source that was chosen once.
#[derive(Debug)]
pub struct CaptureSource {
    /// Whether it is a virtual monitor of the portal.
    pub is_virtual: bool,
    pub session_token: String,
}

/// The token of the source that was chosen last.
pub fn last_token(sources: &Vec<CaptureSource>) -> (r: Option<String>)
    ensures
        match r {
            Some(token) => sources@.len() > 0 && token@ == sources@.last().session_token@,
            None => sources@.len() == 0,
        },
{
    let n = sources.len();
    if n == 0 {
        None
    } else {
        Some(sources[n - 1].session_token.clone())
    }
}

/// The portal gave no token to restore a choice with.
#[derive(Debug, Clone, Copy, PartialEq, Eq, Structural)]
pub struct NoRestoreToken;

impl NoRestoreToken {
    /// What the user is told about it.
    pub fn message(&self) -> (s: &'static str)
        ensures
            s@
                == "Portal did not return a restore token. Ensure your portal backend (e.g. gnome-shell \u{2265} 43, KWin \u{2265} 5.27) supports PersistMode on RemoteDesktop sessions."@,
    {
        "Portal did not return a restore token. Ensure your portal backend (e.g. gnome-shell \u{2265} 43, KWin \u{2265} 5.27) supports PersistMode on RemoteDesktop sessions."
    }
}

/// The sources once a choice was made anew: the chosen one, which the token restores, takes the
/// place of all others.
pub fn chosen_source(token: Option<String>) -> (r: Result<Vec<CaptureSource>, NoRestoreToken>)
    ensures
        match token {
            Some(t) => r matches Ok(v) && v@ == seq![
                CaptureSource { is_virtual: false, session_token: t },
            ],
            None => r == Err::<Vec<CaptureSource>, NoRestoreToken>(NoRestoreToken),
        },
{
    match token {
        Some(session_token) => {
            let mut r: Vec<CaptureSource> = Vec::new();
            r.push(CaptureSource { is_virtual: false, session_token });
            Ok(r)
        },
        None => Err(NoRestoreToken),
    }
}

/// The place of the first virtual source; the length where there is none.
pub open spec fn first_virtual(sources: Seq<CaptureSource>, from: nat) -> nat
    decreases sources.len() - from,
{
    if from >= sources.len() {
        sources.len()
    } else if sources[from as int].is_virtual {
        from
    } else {
        first_virtual(sources, from + 1)
    }
}

fn find_virtual(sources: &Vec<CaptureSource>) -> (i: usize)
    ensures
        i == first_virtual(sources@, 0),
        i <= sources@.len(),
{
    let mut i: usize = 0;
    while i < sources.len() && !sources[i].is_virtual
        invariant
            i <= sources@.len(),
            first_virtual(sources@, 0) == first_virtual(sources@, i as nat),
        decreases sources@.len() - i,
    {
        i += 1;
    }
    i
}

/// The token of the first virtual source.
pub fn virtual_token(sources: &Vec<CaptureSource>) -> (r: Option<String>)
    ensures
        match r {
            Some(token) => first_virtual(sources@, 0) < sources@.len() && token@
                == sources@[first_virtual(sources@, 0) as int].session_token@,
            None => first_virtual(sources@, 0) == sources@.len(),
        },
{
    let i = find_virtual(sources);
    if i < sources.len() {
        Some(sources[i].session_token.clone())
    } else {
        None
    }
}

/// Gives the first virtual source a new token; says whether there is one.
pub fn set_virtual_token(sources: &mut Vec<CaptureSource>, token: String) -> (changed: bool)
    ensures
        changed == (first_virtual(old(sources)@, 0) < old(sources)@.len()),
        final(sources)@ == (if changed {
            old(sources)@.update(
                first_virtual(old(sources)@, 0) as int,
                CaptureSource { is_virtual: true, session_token: token },
            )
        } else {
            old(sources)@
        }),
{
    let i = find_virtual(sources);
    if i < sources.len() {
        proof {
            first_virtual_is_virtual(sources@, 0);
        }
        sources.set(i, CaptureSource { is_virtual: true, session_token: token });
        true
    } else {
        false
    }
}

proof fn first_virtual_is_virtual(sources: Seq<CaptureSource>, from: nat)
    ensures
        first_virtual(sources, from) < sources.len() ==> sources[first_virtual(
            sources,
            from,
        ) as int].is_virtual,
    decreases sources.len() - from,
{
    if from < sources.len() && !sources[from as int].is_virtual {
        first_virtual_is_virtual(sources, from + 1);
    }
}

/// The first virtual source is found: none before it is virtual, and all are looked at where none
/// is.
pub proof fn the_first_virtual_source_is_found(sources: Seq<CaptureSource>, from: nat)
    requires
        from <= sources.len(),
    ensures
        from <= first_virtual(sources, from) <= sources.len(),
        first_virtual(sources, from) < sources.len() ==> sources[first_virtual(
            sources,
            from,
        ) as int].is_virtual,
        forall|i: int|
            from <= i < first_virtual(sources, from) ==> !(#[trigger] sources[i]).is_virtual,
    decreases sources.len() - from,
{
    if from < sources.len() && !sources[from as int].is_virtual {
        the_first_virtual_source_is_found(sources, from + 1);
    }
}

} // verus!
