//! The session record and the scaled-volume arithmetic shared by the
//! whole subsystem.

use vstd::prelude::*;

verus! {

/// A normalised volume of 1.0 is represented as `VOLUME_SCALE`; every
/// volume the library stores or applies lies in `0 ..= VOLUME_SCALE`.
pub const VOLUME_SCALE: u32 = 10000;

/// What clamping a raw scaled volume into `0 ..= VOLUME_SCALE` yields.
pub open spec fn clamp_spec(raw: i64) -> u32 {
    if raw < 0 {
        0u32
    } else if raw > VOLUME_SCALE as i64 {
        VOLUME_SCALE
    } else {
        raw as u32
    }
}

/// Clamp a raw scaled volume into `0 ..= VOLUME_SCALE`.  Out-of-range
/// requests are pulled to the nearest bound before they are applied
/// anywhere.
pub fn clamp_volume(raw: i64) -> (v: u32)
    ensures
        v == clamp_spec(raw),
        v <= VOLUME_SCALE,
{
    if raw < 0 {
        0
    } else if raw > VOLUME_SCALE as i64 {
        VOLUME_SCALE
    } else {
        raw as u32
    }
}

/// Mathematical model of one audio session record.
pub ghost struct SessionModel {
    pub session_id: Seq<char>,
    pub display_name: Seq<char>,
    pub process_id: u32,
    pub process_name: Seq<char>,
    pub volume: u32,
    pub is_muted: bool,
}

/// One audio stream owned by an application process on one playback
/// device, as reported to external callers and held in the cache.
pub struct AudioSession {
    /// Opaque identifier, unique per (device, session) pair.
    pub session_id: String,
    /// Label provided by the owning application, or a generated fallback.
    pub display_name: String,
    /// Owning process; never 0 in enumeration results or in the cache.
    pub process_id: u32,
    /// Resolved executable filename, or a generated fallback.
    pub process_name: String,
    /// Scaled volume in `0 ..= VOLUME_SCALE`.
    pub volume: u32,
    pub is_muted: bool,
}

impl View for AudioSession {
    type V = SessionModel;

    open spec fn view(&self) -> SessionModel {
        SessionModel {
            session_id: self.session_id@,
            display_name: self.display_name@,
            process_id: self.process_id,
            process_name: self.process_name@,
            volume: self.volume,
            is_muted: self.is_muted,
        }
    }
}

/// The invariant every enumerated or cached session satisfies: the system
/// session (process 0) is excluded and the volume is in range.
pub open spec fn session_valid(m: SessionModel) -> bool {
    &&& m.process_id != 0
    &&& m.volume <= VOLUME_SCALE
}

impl Clone for AudioSession {
    fn clone(&self) -> (r: Self)
        ensures
            r == *self,
    {
        AudioSession {
            session_id: self.session_id.clone(),
            display_name: self.display_name.clone(),
            process_id: self.process_id,
            process_name: self.process_name.clone(),
            volume: self.volume,
            is_muted: self.is_muted,
        }
    }
}

/// The models of a sequence of session records.
pub open spec fn views(s: Seq<AudioSession>) -> Seq<SessionModel> {
    s.map_values(|a: AudioSession| a@)
}

/// Appending one record commutes with taking models.
pub(crate) proof fn lemma_views_push(s: Seq<AudioSession>, a: AudioSession)
    ensures
        views(s.push(a)) == views(s) + seq![a@],
{
    assert(views(s.push(a)) =~= views(s) + seq![a@]);
}

/// Replacing one record commutes with taking models.
pub(crate) proof fn lemma_views_update(s: Seq<AudioSession>, i: int, a: AudioSession)
    requires
        0 <= i < s.len(),
    ensures
        views(s.update(i, a)) == views(s).update(i, a@),
{
    assert(views(s.update(i, a)) =~= views(s).update(i, a@));
}

/// Taking a contiguous part commutes with taking models.
pub(crate) proof fn lemma_views_subrange(s: Seq<AudioSession>, a: int, b: int)
    requires
        0 <= a <= b <= s.len(),
    ensures
        views(s.subrange(a, b)) == views(s).subrange(a, b),
{
    assert(views(s.subrange(a, b)) =~= views(s).subrange(a, b));
}

} // verus!
