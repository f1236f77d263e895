//! The registry of sources an instance renders: the Local Source,
//! which always exists under a reserved name, and the Remote Sources
//! mirrored from other instances, each under a unique name.

use vstd::prelude::*;
use crate::text::{str_eq, owned};

verus! {

/// Name of the Local Source, reserved: no Remote Source may use it.
pub const LOCAL_SOURCE_NAME: &'static str = "localhost";

/// The reserved name as a character sequence.
pub open spec fn local_name() -> Seq<char> {
    LOCAL_SOURCE_NAME@
}

/// Connection state of a Remote Source's outbound WebSocket.
#[derive(Debug, Clone, PartialEq, Eq)]
pub enum ConnectionStatus {
    /// Initial state and the state during a reconnect attempt.
    Connecting,
    /// Handshake completed, mirroring is live.
    Connected,
    /// Last attempt failed; `error` carries the most recent failure.
    Disconnected { error: Option<String> },
}

/// Wire-format discriminator of a connection status.
pub open spec fn status_name(s: ConnectionStatus) -> Seq<char> {
    match s {
        ConnectionStatus::Connecting => "connecting"@,
        ConnectionStatus::Connected => "connected"@,
        ConnectionStatus::Disconnected { error: None } => "disconnected"@,
        ConnectionStatus::Disconnected { error: Some(_) } => "error"@,
    }
}

impl ConnectionStatus {
    /// Wire-format discriminator: an error-bearing `Disconnected`
    /// reports as `"error"`, a clean one as `"disconnected"`.
    pub fn as_str(&self) -> (r: &'static str)
        ensures
            r@ == status_name(*self),
    {
        match self {
            ConnectionStatus::Connecting => "connecting",
            ConnectionStatus::Connected => "connected",
            ConnectionStatus::Disconnected { error: None } => "disconnected",
            ConnectionStatus::Disconnected { error: Some(_) } => "error",
        }
    }

    /// The failure message of an error-bearing `Disconnected`; `None`
    /// in every other state.
    pub fn error_message(&self) -> (r: Option<&String>)
        ensures
            match *self {
                ConnectionStatus::Disconnected { error: Some(m) } => r == Some(&m),
                _ => r.is_none(),
            },
    {
        match self {
            ConnectionStatus::Disconnected { error: Some(msg) } => Some(msg),
            _ => None,
        }
    }
}

/// Static configuration of one Remote Source, as written in a config
/// file or given on the command line.
#[derive(Debug, Clone, PartialEq, Eq)]
pub struct RemoteSourceConfig {
    /// Display name and unique identifier; never `"localhost"`.
    pub name: String,
    /// WebSocket URL (`ws://` or `wss://`).
    pub url: String,
    /// Whether the local renderer plays audio for this source.
    pub playback_enabled: bool,
}

impl View for RemoteSourceConfig {
    type V = (Seq<char>, Seq<char>, bool);

    open spec fn view(&self) -> (Seq<char>, Seq<char>, bool) {
        (self.name@, self.url@, self.playback_enabled)
    }
}

/// Errors returned by `SourceRegistry::add_remote_source`.
#[derive(Debug, Clone, PartialEq, Eq)]
pub enum AddSourceError {
    /// The name is the reserved Local Source name or already in use.
    DuplicateName { name: String },
}

/// Runtime entry of one Remote Source.  `mirror` is the state mirrored
/// from the remote instance, owned by the caller's runtime.  `alive`
/// holds while the entry is registered; removal clears it, so tasks
/// still holding the entry know to stop.
pub struct RemoteSource<S> {
    pub name: String,
    pub url: String,
    pub status: ConnectionStatus,
    pub playback_enabled: bool,
    pub alive: bool,
    pub mirror: S,
}

impl<S> RemoteSource<S> {
    /// Whether the entry is still registered.
    pub fn is_alive(&self) -> (r: bool)
        ensures
            r == self.alive,
    {
        self.alive
    }
}

/// Where a source name leads.
#[derive(Debug, Clone, Copy, PartialEq, Eq, Structural)]
pub enum SourceRef {
    Local,
    Remote(usize),
}

/// The names of the remote entries, in order.
pub open spec fn remote_names<S>(remotes: Seq<RemoteSource<S>>) -> Seq<Seq<char>> {
    remotes.map_values(|r: RemoteSource<S>| r.name@)
}

/// Whether some remote entry is named `name`.
pub open spec fn has_remote<S>(remotes: Seq<RemoteSource<S>>, name: Seq<char>) -> bool {
    exists|i: int| 0 <= i < remotes.len() && remotes[i].name@ == name
}

/// Where `name` leads among the Local Source and the remote entries.
pub open spec fn lookup<S>(remotes: Seq<RemoteSource<S>>, name: Seq<char>) -> Option<SourceRef> {
    if name == local_name() {
        Some(SourceRef::Local)
    } else if has_remote(remotes, name) {
        Some(SourceRef::Remote((choose|i: int| 0 <= i < remotes.len() && remotes[i].name@ == name) as usize))
    } else {
        None
    }
}

/// The remote entries as configuration records, in order.
pub open spec fn configs_of<S>(remotes: Seq<RemoteSource<S>>) -> Seq<(Seq<char>, Seq<char>, bool)> {
    remotes.map_values(|r: RemoteSource<S>| (r.name@, r.url@, r.playback_enabled))
}

/// All sources known to an instance.  The Local Source is implicit and
/// always present; the Remote Sources are kept in insertion order.
pub struct SourceRegistry<S> {
    remotes: Vec<RemoteSource<S>>,
}

impl<S> SourceRegistry<S> {
    /// The remote entries, in order.
    pub closed spec fn remotes(&self) -> Seq<RemoteSource<S>> {
        self.remotes@
    }

    /// Names are unique across all sources, none is the reserved local
    /// name, and every registered entry is alive.
    pub open spec fn wf(&self) -> bool {
        &&& forall|i: int| 0 <= i < self.remotes().len() ==> self.remotes()[i].name@ != local_name()
        &&& forall|i: int| 0 <= i < self.remotes().len() ==> #[trigger] self.remotes()[i].alive
        &&& forall|i: int, j: int|
            0 <= i < j < self.remotes().len() ==> self.remotes()[i].name@ != self.remotes()[j].name@
    }

    /// A registry holding only the Local Source.
    pub fn new() -> (r: SourceRegistry<S>)
        ensures
            r.wf(),
            r.remotes() == Seq::<RemoteSource<S>>::empty(),
    {
        SourceRegistry { remotes: Vec::new() }
    }

    /// Number of Remote Sources.
    pub fn remote_count(&self) -> (r: usize)
        ensures
            r == self.remotes().len(),
    {
        self.remotes.len()
    }

    /// The Remote Source at `idx`.
    pub fn remote(&self, idx: usize) -> (r: &RemoteSource<S>)
        requires
            idx < self.remotes().len(),
        ensures
            *r == self.remotes()[idx as int],
    {
        &self.remotes[idx]
    }

    fn position_of(&self, name: &str) -> (r: Option<usize>)
        ensures
            match r {
                Some(i) => i < self.remotes().len() && self.remotes()[i as int].name@ == name@
                    && forall|j: int| 0 <= j < i ==> self.remotes()[j].name@ != name@,
                None => !has_remote(self.remotes(), name@),
            },
    {
        let mut i: usize = 0;
        while i < self.remotes.len()
            invariant
                i <= self.remotes@.len(),
                forall|j: int| 0 <= j < i ==> self.remotes@[j].name@ != name@,
            decreases self.remotes@.len() - i,
        {
            if str_eq(self.remotes[i].name.as_str(), name) {
                return Some(i);
            }
            i = i + 1;
        }
        None
    }

    /// Look up a source by name: the reserved local name leads to the
    /// Local Source, any other name to the Remote Source carrying it.
    pub fn source_by_name(&self, name: &str) -> (r: Option<SourceRef>)
        requires
            self.wf(),
        ensures
            r == lookup(self.remotes(), name@),
    {
        if str_eq(name, LOCAL_SOURCE_NAME) {
            return Some(SourceRef::Local);
        }
        match self.position_of(name) {
            Some(i) => {
                proof {
                    let k = choose|k: int| 0 <= k < self.remotes().len() && self.remotes()[k].name@ == name@;
                    if k != i as int {
                        if k < i {
                        } else {
                            assert(self.remotes()[i as int].name@ != self.remotes()[k].name@);
                        }
                    }
                }
                Some(SourceRef::Remote(i))
            },
            None => None,
        }
    }

    /// Append an empty Remote Source, connecting and with playback
    /// off.  Rejected when `name` is the reserved local name or is
    /// already used by a Remote Source; otherwise returns the new
    /// source's index among the remotes.
    pub fn add_remote_source(&mut self, name: String, url: String, mirror: S) -> (r: Result<usize, AddSourceError>)
        requires
            old(self).wf(),
        ensures
            final(self).wf(),
            (name@ == local_name() || has_remote(old(self).remotes(), name@)) ==> {
                &&& r == Err::<usize, AddSourceError>(AddSourceError::DuplicateName { name })
                &&& final(self).remotes() == old(self).remotes()
            },
            !(name@ == local_name() || has_remote(old(self).remotes(), name@)) ==> {
                &&& r == Ok::<usize, AddSourceError>(old(self).remotes().len() as usize)
                &&& final(self).remotes() == old(self).remotes().push(
                    RemoteSource {
                        name,
                        url,
                        status: ConnectionStatus::Connecting,
                        playback_enabled: false,
                        alive: true,
                        mirror,
                    },
                )
            },
    {
        if str_eq(name.as_str(), LOCAL_SOURCE_NAME) {
            return Err(AddSourceError::DuplicateName { name });
        }
        if self.position_of(name.as_str()).is_some() {
            return Err(AddSourceError::DuplicateName { name });
        }
        let ghost before = self.remotes@;
        self.remotes.push(
            RemoteSource {
                name,
                url,
                status: ConnectionStatus::Connecting,
                playback_enabled: false,
                alive: true,
                mirror,
            },
        );
        proof {
            assert forall|i: int, j: int| 0 <= i < j < self.remotes@.len() implies self.remotes@[i].name@
                != self.remotes@[j].name@ by {
                if j == before.len() {
                    assert(self.remotes@[i] == before[i]);
                } else {
                    assert(self.remotes@[i] == before[i] && self.remotes@[j] == before[j]);
                }
            }
        }
        Ok(self.remotes.len() - 1)
    }

    /// Remove the Remote Source named `name` and hand its entry back,
    /// marked dead, so that tasks working for it can be told to stop.  `None` when no
    /// Remote Source has that name (the Local Source is never removed).
    pub fn remove_remote_source(&mut self, name: &str) -> (r: Option<RemoteSource<S>>)
        requires
            old(self).wf(),
        ensures
            final(self).wf(),
            !has_remote(old(self).remotes(), name@) ==> r.is_none() && final(self).remotes()
                == old(self).remotes(),
            has_remote(old(self).remotes(), name@) ==> exists|i: int|
                0 <= i < old(self).remotes().len() && old(self).remotes()[i].name@ == name@ && r
                    == Some(RemoteSource { alive: false, ..old(self).remotes()[i] }) && final(self).remotes() == old(self).remotes().remove(
                    i,
                ),
            !has_remote(final(self).remotes(), name@),
    {
        match self.position_of(name) {
            None => None,
            Some(i) => {
                let ghost before = self.remotes@;
                let mut entry = self.remotes.remove(i);
                entry.alive = false;
                proof {
                    assert(self.remotes@ =~= before.remove(i as int));
                    assert forall|a: int, b: int| 0 <= a < b < self.remotes@.len() implies self.remotes@[a].name@
                        != self.remotes@[b].name@ by {
                        let a0 = if a < i { a } else { a + 1 };
                        let b0 = if b < i { b } else { b + 1 };
                        assert(self.remotes@[a] == before[a0]);
                        assert(self.remotes@[b] == before[b0]);
                    }
                    assert forall|k: int| 0 <= k < self.remotes@.len() implies self.remotes@[k].name@ != name@ by {
                        let k0 = if k < i { k } else { k + 1 };
                        assert(self.remotes@[k] == before[k0]);
                        if k0 < i {
                        } else {
                            assert(before[i as int].name@ != before[k0].name@);
                        }
                    }
                }
                Some(entry)
            },
        }
    }

    /// Whether the play threads of a source emit audio: the Local Source
    /// always does, a Remote Source only while its playback toggle is on.
    pub fn should_play(&self, source: SourceRef) -> (r: bool)
        requires
            source matches SourceRef::Remote(i) ==> i < self.remotes().len(),
        ensures
            r == match source {
                SourceRef::Local => true,
                SourceRef::Remote(i) => self.remotes()[i as int].playback_enabled,
            },
    {
        match source {
            SourceRef::Local => true,
            SourceRef::Remote(i) => self.remotes[i].playback_enabled,
        }
    }

    /// Set the playback toggle of the Remote Source named `name`.
    /// Returns `true` if such a Remote Source exists and the value was
    /// applied; `false` otherwise (the Local Source has no toggle).
    pub fn set_remote_playback_enabled(&mut self, name: &str, enabled: bool) -> (r: bool)
        requires
            old(self).wf(),
        ensures
            final(self).wf(),
            r == has_remote(old(self).remotes(), name@),
            final(self).remotes() == old(self).remotes().map_values(
                |o: RemoteSource<S>|
                    if o.name@ == name@ {
                        RemoteSource { playback_enabled: enabled, ..o }
                    } else {
                        o
                    },
            ),
    {
        match self.position_of(name) {
            None => false,
            Some(i) => {
                let ghost before = self.remotes@;
                let mut entry = self.remotes.remove(i);
                entry.playback_enabled = enabled;
                self.remotes.insert(i, entry);
                proof {
                    assert forall|k: int| 0 <= k < before.len() && k != i implies before[k].name@ != name@ by {
                        if k > i {
                            assert(before[i as int].name@ != before[k].name@);
                        }
                    }
                    assert(self.remotes@ =~= before.map_values(
                        |o: RemoteSource<S>|
                            if o.name@ == name@ {
                                RemoteSource { playback_enabled: enabled, ..o }
                            } else {
                                o
                            },
                    ));
                }
                true
            },
        }
    }

    /// Record the connection status of the Remote Source at `idx`.
    pub fn set_status(&mut self, idx: usize, status: ConnectionStatus)
        requires
            old(self).wf(),
            idx < old(self).remotes().len(),
        ensures
            final(self).wf(),
            final(self).remotes() == old(self).remotes().update(
                idx as int,
                RemoteSource { status, ..old(self).remotes()[idx as int] },
            ),
    {
        let mut entry = self.remotes.remove(idx);
        entry.status = status;
        self.remotes.insert(idx, entry);
        assert(self.remotes@ =~= old(self).remotes@.update(
            idx as int,
            RemoteSource { status, ..old(self).remotes@[idx as int] },
        ));
    }

    /// Mutable access to the mirrored state of the Remote Source at
    /// `idx`.
    pub fn mirror_mut(&mut self, idx: usize) -> (r: &mut S)
        requires
            old(self).wf(),
            idx < old(self).remotes().len(),
        ensures
            *r == old(self).remotes()[idx as int].mirror,
            final(self).remotes() == old(self).remotes().update(
                idx as int,
                RemoteSource { mirror: *final(r), ..old(self).remotes()[idx as int] },
            ),
    {
        &mut self.remotes[idx].mirror
    }

    /// The Remote Sources as configuration records, in order, with
    /// their current playback toggles, for save and export.
    pub fn remote_source_configs(&self) -> (r: Vec<RemoteSourceConfig>)
        ensures
            r@.map_values(|c: RemoteSourceConfig| c@) == configs_of(self.remotes()),
    {
        let mut out: Vec<RemoteSourceConfig> = Vec::new();
        let mut i: usize = 0;
        while i < self.remotes.len()
            invariant
                i <= self.remotes@.len(),
                out@.len() == i,
                forall|k: int|
                    0 <= k < i ==> out@[k].name@ == self.remotes@[k].name@ && out@[k].url@
                        == self.remotes@[k].url@ && out@[k].playback_enabled
                        == self.remotes@[k].playback_enabled,
            decreases self.remotes@.len() - i,
        {
            let r = &self.remotes[i];
            out.push(
                RemoteSourceConfig {
                    name: owned(r.name.as_str()),
                    url: owned(r.url.as_str()),
                    playback_enabled: r.playback_enabled,
                },
            );
            i = i + 1;
        }
        assert(out@.map_values(|c: RemoteSourceConfig| c@) =~= configs_of(
            self.remotes@,
        ));
        out
    }

    /// The names of all sources: the Local Source first, then every
    /// Remote Source in insertion order.
    pub fn source_names(&self) -> (r: Vec<String>)
        ensures
            r@.map_values(|s: String| s@) == seq![local_name()] + remote_names(self.remotes()),
    {
        let mut out: Vec<String> = Vec::new();
        out.push(owned(LOCAL_SOURCE_NAME));
        let mut i: usize = 0;
        while i < self.remotes.len()
            invariant
                i <= self.remotes@.len(),
                out@.len() == i + 1,
                out@[0]@ == local_name(),
                forall|k: int| 0 <= k < i ==> out@[k + 1]@ == self.remotes@[k].name@,
            decreases self.remotes@.len() - i,
        {
            out.push(owned(self.remotes[i].name.as_str()));
            i = i + 1;
        }
        assert(out@.map_values(|s: String| s@) =~= seq![local_name()] + remote_names(self.remotes@));
        out
    }
}

/// A Remote Source that was just added is found under its name, at the
/// index the registry handed back.
pub proof fn lemma_added_source_is_found<S>(before: Seq<RemoteSource<S>>, entry: RemoteSource<S>)
    requires
        entry.name@ != local_name(),
        !has_remote(before, entry.name@),
    ensures
        lookup(before.push(entry), entry.name@) == Some(SourceRef::Remote(before.len() as usize)),
{
    let after = before.push(entry);
    assert(after[before.len() as int] == entry);
    assert(has_remote(after, entry.name@));
    let k = choose|i: int| 0 <= i < after.len() && after[i].name@ == entry.name@;
    if k < before.len() {
        assert(after[k] == before[k]);
    }
}

/// Once a Remote Source is removed, its name leads nowhere.
pub proof fn lemma_removed_source_is_gone<S>(after: Seq<RemoteSource<S>>, name: Seq<char>)
    requires
        name != local_name(),
        !has_remote(after, name),
    ensures
        lookup(after, name) is None,
{
}

} // verus!
