//! The audio manager: owns the bounded session cache and the stored
//! default-device identity, ingests enumeration passes, fans volume and
//! mute commands out to every live session of the owning process, and
//! detects default-device changes.

use crate::cache::all_valid;
use crate::cache::has_id;
use crate::cache::owner_of;
use crate::cache::refresh_spec;
use crate::cache::update_mute_spec;
use crate::cache::update_volume_spec;
use crate::cache::unique_ids;
use crate::cache::SessionCache;
use crate::cache::DEFAULT_CACHE_CAP;
use crate::mixer::live_match;
use crate::mixer::live_match_exists;
use crate::mixer::lemma_norm_scan_valid;
use crate::mixer::mute_applied;
use crate::mixer::norm_scan;
use crate::mixer::normalize_scan;
use crate::mixer::total_sessions;
use crate::mixer::volume_applied;
use crate::mixer::DeviceScan;
use crate::mixer::LiveSession;
use crate::session::clamp_spec;
use crate::session::clamp_volume;
use crate::session::views;
use crate::session::AudioSession;
use crate::session::SessionModel;
use crate::text::dec_rep;
use crate::text::str_eq;
use crate::text::u64_to_string;
use vstd::prelude::*;
use vstd::string::StringExecFns;

verus! {

/// Why a volume or mute command failed.
#[derive(Debug)]
pub enum AudioError {
    /// The command referenced an identifier the cache does not hold.
    SessionNotFound(String),
    /// The cache knew the session, but no live session of the owning
    /// process could take the command.
    NoLiveSessions(u32),
}

/// The descriptive message carried by an error.
pub open spec fn message_spec(e: &AudioError) -> Seq<char> {
    match e {
        AudioError::SessionNotFound(id) => "Session not found: "@ + id@,
        AudioError::NoLiveSessions(pid) => "No live sessions for process "@ + dec_rep(
            *pid as nat,
        ),
    }
}

impl AudioError {
    /// Render the error as the descriptive string surfaced to callers.
    pub fn message(&self) -> (s: String)
        ensures
            s@ == message_spec(self),
    {
        match self {
            AudioError::SessionNotFound(id) => {
                let mut s = String::from_str("Session not found: ");
                s.append(id.as_str());
                s
            },
            AudioError::NoLiveSessions(pid) => {
                let mut s = String::from_str("No live sessions for process ");
                let digits = u64_to_string(*pid as u64);
                s.append(digits.as_str());
                s
            },
        }
    }
}

/// The audio-control subsystem: the session cache plus the stored
/// default-device identity and the pass counter.  External callers
/// receive copies of cached records, never references.
pub struct AudioManager {
    cache: SessionCache,
    device_id: Option<String>,
    enumerations: u64,
}

impl AudioManager {
    /// The cached session records, in insertion order.
    pub closed spec fn cache_models(&self) -> Seq<SessionModel> {
        self.cache@
    }

    /// The configured bound on cached entries.
    pub closed spec fn cap(&self) -> nat {
        self.cache.cap_spec()
    }

    /// The stored default-device identity, if one was captured.
    pub closed spec fn stored_device(&self) -> Option<Seq<char>> {
        match self.device_id {
            Some(d) => Some(d@),
            None => None,
        }
    }

    /// How many enumeration passes were ingested since startup or the
    /// last cleanup.
    pub closed spec fn enumeration_count(&self) -> nat {
        self.enumerations as nat
    }

    /// Well-formedness of the manager (its cache invariant).
    pub closed spec fn wf(&self) -> bool {
        self.cache.wf()
    }

    /// What well-formedness guarantees about the cache contents: a
    /// usable cap that the entry count respects, each identifier held at
    /// most once, and only valid sessions (in particular, never the
    /// system session).
    pub proof fn lemma_wf_cache(&self)
        requires
            self.wf(),
        ensures
            self.cap() >= 1,
            self.cache_models().len() <= self.cap(),
            unique_ids(self.cache_models()),
            all_valid(self.cache_models()),
    {
    }

    /// A manager with an empty cache bounded by `DEFAULT_CACHE_CAP`, no
    /// stored device identity, and a zero pass counter.
    pub fn new() -> (m: AudioManager)
        ensures
            m.wf(),
            m.cache_models() == Seq::<SessionModel>::empty(),
            m.stored_device() is None,
            m.cap() == DEFAULT_CACHE_CAP as nat,
            m.enumeration_count() == 0,
    {
        AudioManager { cache: SessionCache::new(DEFAULT_CACHE_CAP), device_id: None, enumerations: 0 }
    }

    /// A manager with an empty cache bounded by `cap` entries.
    pub fn with_cap(cap: usize) -> (m: AudioManager)
        requires
            cap >= 1,
        ensures
            m.wf(),
            m.cache_models() == Seq::<SessionModel>::empty(),
            m.stored_device() is None,
            m.cap() == cap as nat,
            m.enumeration_count() == 0,
    {
        AudioManager { cache: SessionCache::new(cap), device_id: None, enumerations: 0 }
    }

    /// Capture the default-device identity at subsystem startup.
    pub fn initialize(&mut self, device_id: Option<String>)
        requires
            old(self).wf(),
        ensures
            final(self).wf(),
            final(self).stored_device() == (match device_id {
                Some(d) => Some(d@),
                None => None::<Seq<char>>,
            }),
            final(self).cache_models() == old(self).cache_models(),
            final(self).cap() == old(self).cap(),
            final(self).enumeration_count() == old(self).enumeration_count(),
    {
        self.device_id = device_id;
    }

    /// Ingest one pass over the mixer: normalise the raw observations
    /// into the flat session list returned to the caller, and refresh the
    /// cache from exactly those records.
    pub fn enumerate_sessions(&mut self, scan: &Vec<DeviceScan>) -> (result: Vec<AudioSession>)
        requires
            old(self).wf(),
            total_sessions(scan@) <= usize::MAX,
        ensures
            final(self).wf(),
            views(result@) == norm_scan(scan@, 0),
            all_valid(views(result@)),
            final(self).cache_models() == refresh_spec(views(result@), old(self).cap()),
            final(self).cache_models().len() <= old(self).cap(),
            final(self).cap() == old(self).cap(),
            final(self).stored_device() == old(self).stored_device(),
            old(self).enumeration_count() < u64::MAX ==> final(self).enumeration_count() == old(
                self,
            ).enumeration_count() + 1,
    {
        let result = normalize_scan(scan);
        proof {
            lemma_norm_scan_valid(scan@, 0);
            assert(all_valid(views(result@)));
        }
        self.cache.refresh(&result);
        if self.enumerations < u64::MAX {
            self.enumerations = self.enumerations + 1;
        }
        result
    }

    /// Apply a volume command: clamp the requested volume, look the
    /// session up in the cache, set the clamped volume on every live
    /// session of the owning process that exposes a volume interface,
    /// and on success record the new volume in the cache entry of the
    /// requested session.  Fails without touching anything when the
    /// identifier is unknown, and with a distinct error when the cache
    /// knew the session but nothing live could take the command.
    pub fn set_session_volume(
        &mut self,
        session_id: &str,
        volume: i64,
        live: &mut Vec<LiveSession>,
    ) -> (r: Result<(), AudioError>)
        requires
            old(self).wf(),
        ensures
            final(self).wf(),
            final(self).cap() == old(self).cap(),
            final(self).stored_device() == old(self).stored_device(),
            final(self).enumeration_count() == old(self).enumeration_count(),
            !has_id(old(self).cache_models(), session_id@) ==> {
                &&& (r matches Err(AudioError::SessionNotFound(id)) && id@ == session_id@)
                &&& final(self).cache_models() == old(self).cache_models()
                &&& final(live)@ == old(live)@
            },
            has_id(old(self).cache_models(), session_id@) ==> volume_applied(
                old(live)@,
                final(live)@,
                owner_of(old(self).cache_models(), session_id@),
                clamp_spec(volume),
            ),
            has_id(old(self).cache_models(), session_id@) && live_match_exists(
                old(live)@,
                owner_of(old(self).cache_models(), session_id@),
            ) ==> {
                &&& r is Ok
                &&& final(self).cache_models() == update_volume_spec(
                    old(self).cache_models(),
                    session_id@,
                    clamp_spec(volume),
                )
            },
            has_id(old(self).cache_models(), session_id@) && !live_match_exists(
                old(live)@,
                owner_of(old(self).cache_models(), session_id@),
            ) ==> {
                &&& (r matches Err(AudioError::NoLiveSessions(p)) && p == owner_of(
                    old(self).cache_models(),
                    session_id@,
                ))
                &&& final(self).cache_models() == old(self).cache_models()
            },
    {
        let clamped = clamp_volume(volume);
        match self.cache.find_process_id(session_id) {
            None => Err(AudioError::SessionNotFound(String::from_str(session_id))),
            Some(pid) => {
                let mut any = false;
                let mut i: usize = 0;
                while i < live.len()
                    invariant
                        i <= live@.len(),
                        live@.len() == old(live)@.len(),
                        any == (exists|j: int|
                            0 <= j < i && live_match(#[trigger] old(live)@[j], pid)),
                        forall|j: int| i <= j < live@.len() ==> live@[j] == old(live)@[j],
                        forall|j: int|
                            0 <= j < i ==> if live_match(#[trigger] old(live)@[j], pid) {
                                &&& live@[j].session_id == old(live)@[j].session_id
                                &&& live@[j].process_id == old(live)@[j].process_id
                                &&& live@[j].volume == clamped
                                &&& live@[j].is_muted == old(live)@[j].is_muted
                                &&& live@[j].has_control == old(live)@[j].has_control
                            } else {
                                live@[j] == old(live)@[j]
                            },
                    decreases live@.len() - i,
                {
                    let s = &live[i];
                    if s.process_id == pid && s.has_control {
                        let touched = LiveSession {
                            session_id: s.session_id.clone(),
                            process_id: s.process_id,
                            volume: clamped,
                            is_muted: s.is_muted,
                            has_control: s.has_control,
                        };
                        live[i] = touched;
                        any = true;
                        proof {
                            assert(live_match(old(live)@[i as int], pid));
                        }
                    }
                    i += 1;
                }
                if any {
                    let updated = self.cache.update_volume(session_id, clamped);
                    proof {
                        assert(updated);
                    }
                    Ok(())
                } else {
                    Err(AudioError::NoLiveSessions(pid))
                }
            },
        }
    }

    /// Apply a mute command, with the same fan-out, cache and error
    /// behaviour as a volume command.
    pub fn set_session_mute(
        &mut self,
        session_id: &str,
        muted: bool,
        live: &mut Vec<LiveSession>,
    ) -> (r: Result<(), AudioError>)
        requires
            old(self).wf(),
        ensures
            final(self).wf(),
            final(self).cap() == old(self).cap(),
            final(self).stored_device() == old(self).stored_device(),
            final(self).enumeration_count() == old(self).enumeration_count(),
            !has_id(old(self).cache_models(), session_id@) ==> {
                &&& (r matches Err(AudioError::SessionNotFound(id)) && id@ == session_id@)
                &&& final(self).cache_models() == old(self).cache_models()
                &&& final(live)@ == old(live)@
            },
            has_id(old(self).cache_models(), session_id@) ==> mute_applied(
                old(live)@,
                final(live)@,
                owner_of(old(self).cache_models(), session_id@),
                muted,
            ),
            has_id(old(self).cache_models(), session_id@) && live_match_exists(
                old(live)@,
                owner_of(old(self).cache_models(), session_id@),
            ) ==> {
                &&& r is Ok
                &&& final(self).cache_models() == update_mute_spec(
                    old(self).cache_models(),
                    session_id@,
                    muted,
                )
            },
            has_id(old(self).cache_models(), session_id@) && !live_match_exists(
                old(live)@,
                owner_of(old(self).cache_models(), session_id@),
            ) ==> {
                &&& (r matches Err(AudioError::NoLiveSessions(p)) && p == owner_of(
                    old(self).cache_models(),
                    session_id@,
                ))
                &&& final(self).cache_models() == old(self).cache_models()
            },
    {
        match self.cache.find_process_id(session_id) {
            None => Err(AudioError::SessionNotFound(String::from_str(session_id))),
            Some(pid) => {
                let mut any = false;
                let mut i: usize = 0;
                while i < live.len()
                    invariant
                        i <= live@.len(),
                        live@.len() == old(live)@.len(),
                        any == (exists|j: int|
                            0 <= j < i && live_match(#[trigger] old(live)@[j], pid)),
                        forall|j: int| i <= j < live@.len() ==> live@[j] == old(live)@[j],
                        forall|j: int|
                            0 <= j < i ==> if live_match(#[trigger] old(live)@[j], pid) {
                                &&& live@[j].session_id == old(live)@[j].session_id
                                &&& live@[j].process_id == old(live)@[j].process_id
                                &&& live@[j].volume == old(live)@[j].volume
                                &&& live@[j].is_muted == muted
                                &&& live@[j].has_control == old(live)@[j].has_control
                            } else {
                                live@[j] == old(live)@[j]
                            },
                    decreases live@.len() - i,
                {
                    let s = &live[i];
                    if s.process_id == pid && s.has_control {
                        let touched = LiveSession {
                            session_id: s.session_id.clone(),
                            process_id: s.process_id,
                            volume: s.volume,
                            is_muted: muted,
                            has_control: s.has_control,
                        };
                        live[i] = touched;
                        any = true;
                        proof {
                            assert(live_match(old(live)@[i as int], pid));
                        }
                    }
                    i += 1;
                }
                if any {
                    let updated = self.cache.update_mute(session_id, muted);
                    proof {
                        assert(updated);
                    }
                    Ok(())
                } else {
                    Err(AudioError::NoLiveSessions(pid))
                }
            },
        }
    }

    /// Compare the freshly resolved default-device identity against the
    /// stored one; store it and report whether it differs.  The first
    /// call after startup or cleanup always reports a change.
    pub fn check_device_changed(&mut self, current: &str) -> (changed: bool)
        requires
            old(self).wf(),
        ensures
            final(self).wf(),
            changed == !(old(self).stored_device() matches Some(d) && d == current@),
            final(self).stored_device() == Some(current@),
            final(self).cache_models() == old(self).cache_models(),
            final(self).cap() == old(self).cap(),
            final(self).enumeration_count() == old(self).enumeration_count(),
    {
        let same = match &self.device_id {
            Some(d) => str_eq(d.as_str(), current),
            None => false,
        };
        if !same {
            self.device_id = Some(String::from_str(current));
        }
        !same
    }

    /// Copies of all cached session records, in insertion order.
    pub fn cached_sessions(&self) -> (v: Vec<AudioSession>)
        ensures
            views(v@) == self.cache_models(),
    {
        self.cache.snapshot()
    }

    /// Number of enumeration passes ingested since startup or the last
    /// cleanup (saturating).
    pub fn enumeration_passes(&self) -> (n: u64)
        ensures
            n as nat == self.enumeration_count(),
    {
        self.enumerations
    }

    /// Number of cached session records.
    pub fn cache_len(&self) -> (n: usize)
        ensures
            n == self.cache_models().len(),
    {
        self.cache.len()
    }

    /// Clear the cache, forget the stored device identity and reset the
    /// pass counter.  Idempotent and infallible: a second call changes
    /// nothing and still succeeds.
    pub fn cleanup(&mut self)
        requires
            old(self).wf(),
        ensures
            final(self).wf(),
            final(self).cache_models() == Seq::<SessionModel>::empty(),
            final(self).stored_device() is None,
            final(self).enumeration_count() == 0,
            final(self).cap() == old(self).cap(),
    {
        self.cache.clear();
        self.device_id = None;
        self.enumerations = 0;
    }
}

} // verus!
