//! Observations of the live mixer, as plain values, and their
//! normalisation into session records.
//!
//! The operating-system layer walks every active playback device and
//! reports, per device, either that the device could not be queried or
//! the raw per-session facts it found.  The library turns that report
//! into the flat list of session records that callers see: system
//! sessions (process 0) and sessions without a volume control are
//! skipped, missing identifiers and labels get deterministic fallbacks,
//! and volumes are clamped into range.  A device that failed to activate
//! costs only its own sessions, never the whole pass.

use crate::identity::fallback_name;
use crate::identity::resolve_process_name;
use crate::identity::fallback_name_spec;
use crate::identity::resolved_name_spec;
use crate::session::clamp_spec;
use crate::session::clamp_volume;
use crate::session::lemma_views_push;
use crate::session::session_valid;
use crate::session::views;
use crate::session::AudioSession;
use crate::session::SessionModel;
use crate::text::dec_rep;
use crate::text::u64_to_string;
use vstd::prelude::*;
use vstd::string::StringExecFns;

verus! {

/// Volume facts reported for one raw session, scaled like
/// [`crate::session::VOLUME_SCALE`] but not yet clamped.
pub struct RawControl {
    pub volume: i64,
    pub is_muted: bool,
}

/// One session exactly as a device's session collection reported it,
/// before any normalisation.  A `None` field is a query that failed.
pub struct RawSession {
    /// Owning process; 0 when the owner is the system mix session or
    /// could not be queried.
    pub process_id: u32,
    /// Per-session instance identifier.
    pub instance_id: Option<String>,
    /// Display name provided by the owning application.
    pub display_name: Option<String>,
    /// Full image path of the owning process, as the process query
    /// reported it.
    pub image_path: Option<String>,
    /// `None` when the session exposes no volume interface; such a
    /// session is skipped.
    pub control: Option<RawControl>,
}

/// What one playback device yielded during a pass over the mixer.
pub enum DeviceScan {
    /// The device could not be activated or queried; it is skipped.
    Unavailable,
    /// The sessions found in the device's session collection.
    Sessions(Vec<RawSession>),
}

/// One live session as seen during a command fan-out: just enough to
/// decide whether a command applies to it and to record the result.
pub struct LiveSession {
    pub session_id: String,
    pub process_id: u32,
    /// Scaled volume in `0 ..= VOLUME_SCALE` once a command applied.
    pub volume: u32,
    pub is_muted: bool,
    /// Whether the session exposes a volume interface; a command can
    /// only be applied where it does.
    pub has_control: bool,
}

/// Whether a command aimed at process `pid` applies to the live session
/// `s`: the process matches and the session exposes a volume interface.
pub open spec fn live_match(s: LiveSession, pid: u32) -> bool {
    &&& s.process_id == pid
    &&& s.has_control
}

/// Whether any live session in `live` can take a command for `pid`.
pub open spec fn live_match_exists(live: Seq<LiveSession>, pid: u32) -> bool {
    exists|i: int| 0 <= i < live.len() && live_match(#[trigger] live[i], pid)
}

/// The fan-out of a volume command: every live session of `pid` with a
/// volume interface carries volume `v` afterwards and nothing else about
/// it changed; every other live session is untouched.
pub open spec fn volume_applied(
    pre: Seq<LiveSession>,
    post: Seq<LiveSession>,
    pid: u32,
    v: u32,
) -> bool {
    &&& post.len() == pre.len()
    &&& forall|i: int|
        0 <= i < pre.len() ==> if live_match(#[trigger] pre[i], pid) {
            &&& post[i].session_id == pre[i].session_id
            &&& post[i].process_id == pre[i].process_id
            &&& post[i].volume == v
            &&& post[i].is_muted == pre[i].is_muted
            &&& post[i].has_control == pre[i].has_control
        } else {
            post[i] == pre[i]
        }
}

/// The fan-out of a mute command, like [`volume_applied`] but on the
/// mute flag.
pub open spec fn mute_applied(
    pre: Seq<LiveSession>,
    post: Seq<LiveSession>,
    pid: u32,
    muted: bool,
) -> bool {
    &&& post.len() == pre.len()
    &&& forall|i: int|
        0 <= i < pre.len() ==> if live_match(#[trigger] pre[i], pid) {
            &&& post[i].session_id == pre[i].session_id
            &&& post[i].process_id == pre[i].process_id
            &&& post[i].volume == pre[i].volume
            &&& post[i].is_muted == muted
            &&& post[i].has_control == pre[i].has_control
        } else {
            post[i] == pre[i]
        }
}

/// The generated identifier for the `k`-th raw session of a pass whose
/// own identifier query failed.
pub open spec fn fallback_session_id(k: nat) -> Seq<char> {
    "session_"@ + dec_rep(k)
}

/// Whether a raw session survives normalisation: the system session is
/// excluded and a volume interface must be present.
pub open spec fn keeps(r: RawSession) -> bool {
    &&& r.process_id != 0
    &&& r.control is Some
}

/// The session record a kept raw session normalises to, where `k` is its
/// running position in the pass.
pub open spec fn norm_session(r: RawSession, k: nat) -> SessionModel {
    SessionModel {
        session_id: match r.instance_id {
            Some(s) => s@,
            None => fallback_session_id(k),
        },
        display_name: match r.display_name {
            Some(s) => s@,
            None => fallback_name_spec(r.process_id),
        },
        process_id: r.process_id,
        process_name: resolved_name_spec(
            r.process_id,
            match r.image_path {
                Some(p) => Some(p@),
                None => None,
            },
        ),
        volume: match r.control {
            Some(c) => clamp_spec(c.volume),
            None => 0,
        },
        is_muted: match r.control {
            Some(c) => c.is_muted,
            None => false,
        },
    }
}

/// The records one device's raw sessions normalise to, with `base` the
/// running position of the first of them.
pub open spec fn norm_device(rs: Seq<RawSession>, base: nat) -> Seq<SessionModel>
    decreases rs.len(),
{
    if rs.len() == 0 {
        Seq::empty()
    } else {
        (if keeps(rs[0]) {
            seq![norm_session(rs[0], base)]
        } else {
            Seq::empty()
        }) + norm_device(rs.drop_first(), base + 1)
    }
}

/// How many raw sessions a device scan reports.
pub open spec fn scan_count(d: DeviceScan) -> nat {
    match d {
        DeviceScan::Unavailable => 0,
        DeviceScan::Sessions(v) => v@.len(),
    }
}

/// How many raw sessions a whole pass reports, skipped devices counting
/// nothing.
pub open spec fn total_sessions(ds: Seq<DeviceScan>) -> nat
    decreases ds.len(),
{
    if ds.len() == 0 {
        0
    } else {
        scan_count(ds[0]) + total_sessions(ds.drop_first())
    }
}

/// The flat list of records a whole pass normalises to, with `base` the
/// running position of its first raw session.
pub open spec fn norm_scan(ds: Seq<DeviceScan>, base: nat) -> Seq<SessionModel>
    decreases ds.len(),
{
    if ds.len() == 0 {
        Seq::empty()
    } else {
        (match ds[0] {
            DeviceScan::Unavailable => Seq::empty(),
            DeviceScan::Sessions(v) => norm_device(v@, base),
        }) + norm_scan(ds.drop_first(), base + scan_count(ds[0]))
    }
}

/// Every record a device normalises to is a valid session: its process
/// is not the system session and its volume is in range.
pub proof fn lemma_norm_device_valid(rs: Seq<RawSession>, base: nat)
    ensures
        forall|i: int|
            0 <= i < norm_device(rs, base).len() ==> session_valid(#[trigger] norm_device(rs, base)[i]),
    decreases rs.len(),
{
    if rs.len() > 0 {
        lemma_norm_device_valid(rs.drop_first(), base + 1);
        let head: Seq<SessionModel> = if keeps(rs[0]) {
            seq![norm_session(rs[0], base)]
        } else {
            Seq::empty()
        };
        let tail = norm_device(rs.drop_first(), base + 1);
        assert forall|i: int| 0 <= i < norm_device(rs, base).len() implies session_valid(
            norm_device(rs, base)[i],
        ) by {
            if i < head.len() {
                assert(norm_device(rs, base)[i] == norm_session(rs[0], base));
            } else {
                assert(norm_device(rs, base)[i] == tail[i - head.len()]);
            }
        };
    }
}

/// Every record a pass normalises to is a valid session.
pub proof fn lemma_norm_scan_valid(ds: Seq<DeviceScan>, base: nat)
    ensures
        forall|i: int|
            0 <= i < norm_scan(ds, base).len() ==> session_valid(#[trigger] norm_scan(ds, base)[i]),
    decreases ds.len(),
{
    if ds.len() > 0 {
        let head: Seq<SessionModel> = match ds[0] {
            DeviceScan::Unavailable => Seq::empty(),
            DeviceScan::Sessions(v) => norm_device(v@, base),
        };
        match ds[0] {
            DeviceScan::Unavailable => {},
            DeviceScan::Sessions(v) => {
                lemma_norm_device_valid(v@, base);
            },
        }
        lemma_norm_scan_valid(ds.drop_first(), base + scan_count(ds[0]));
        let tail = norm_scan(ds.drop_first(), base + scan_count(ds[0]));
        assert forall|i: int| 0 <= i < norm_scan(ds, base).len() implies session_valid(
            norm_scan(ds, base)[i],
        ) by {
            if i < head.len() {
                assert(norm_scan(ds, base)[i] == head[i]);
            } else {
                assert(norm_scan(ds, base)[i] == tail[i - head.len()]);
            }
        };
    }
}

/// Normalise one pass over the mixer into the flat list of session
/// records returned to callers.
pub fn normalize_scan(scan: &Vec<DeviceScan>) -> (result: Vec<AudioSession>)
    requires
        total_sessions(scan@) <= usize::MAX,
    ensures
        views(result@) == norm_scan(scan@, 0),
{
    let mut out: Vec<AudioSession> = Vec::new();
    let mut k: usize = 0;
    let mut di: usize = 0;
    proof {
        assert(scan@.skip(0) =~= scan@);
        assert(views(out@) + norm_scan(scan@, 0) =~= norm_scan(scan@, 0));
    }
    while di < scan.len()
        invariant
            di <= scan@.len(),
            views(out@) + norm_scan(scan@.skip(di as int), k as nat) == norm_scan(scan@, 0),
            k as nat + total_sessions(scan@.skip(di as int)) <= usize::MAX,
        decreases scan@.len() - di,
    {
        proof {
            assert(scan@.skip(di as int)[0] == scan@[di as int]);
            assert(scan@.skip(di as int).drop_first() =~= scan@.skip(di as int + 1));
        }
        match &scan[di] {
            DeviceScan::Unavailable => {},
            DeviceScan::Sessions(v) => {
                let ghost k0: nat = k as nat;
                let mut si: usize = 0;
                proof {
                    assert(v@.skip(0) =~= v@);
                }
                while si < v.len()
                    invariant
                        si <= v@.len(),
                        k as nat == k0 + si,
                        views(out@) + (norm_device(v@.skip(si as int), k as nat) + norm_scan(
                            scan@.skip(di as int + 1),
                            k0 + v@.len(),
                        )) == norm_scan(scan@, 0),
                        k as nat + (v@.len() - si) + total_sessions(scan@.skip(di as int + 1))
                            <= usize::MAX,
                    decreases v@.len() - si,
                {
                    proof {
                        assert(v@.skip(si as int)[0] == v@[si as int]);
                        assert(v@.skip(si as int).drop_first() =~= v@.skip(si as int + 1));
                    }
                    let raw = &v[si];
                    if raw.process_id != 0 && raw.control.is_some() {
                        let session_id: String = match &raw.instance_id {
                            Some(s) => s.clone(),
                            None => {
                                let mut t = String::from_str("session_");
                                let digits = u64_to_string(k as u64);
                                t.append(digits.as_str());
                                t
                            },
                        };
                        let display_name: String = match &raw.display_name {
                            Some(s) => s.clone(),
                            None => fallback_name(raw.process_id),
                        };
                        let process_name = resolve_process_name(
                            raw.process_id,
                            match &raw.image_path {
                                Some(p) => Some(p.as_str()),
                                None => None,
                            },
                        );
                        let (volume, is_muted): (u32, bool) = match &raw.control {
                            Some(c) => (clamp_volume(c.volume), c.is_muted),
                            None => (0, false),
                        };
                        let record = AudioSession {
                            session_id,
                            display_name,
                            process_id: raw.process_id,
                            process_name,
                            volume,
                            is_muted,
                        };
                        proof {
                            assert(record@ == norm_session(v@[si as int], k as nat));
                            lemma_views_push(out@, record);
                        }
                        out.push(record);
                    }
                    si += 1;
                    k += 1;
                }
            },
        }
        di += 1;
    }
    proof {
        assert(scan@.skip(scan@.len() as int) =~= Seq::<DeviceScan>::empty());
        assert(views(out@) + Seq::<SessionModel>::empty() =~= views(out@));
    }
    out
}

} // verus!
