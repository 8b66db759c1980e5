//! The bounded session cache: a mapping from session identifier to the
//! last observed session record, kept in insertion order.
//!
//! Every enumeration pass rebuilds the mapping from the freshly observed
//! records: each observed record is inserted, overwriting an entry with
//! the same identifier in place, and entries whose identifier was not
//! observed disappear with the rebuild — the cache reflects currently
//! live sessions only.  A hard cap bounds the entry count; when a pass
//! leaves the cache over the cap, the oldest entries (by insertion order)
//! are dropped until only the newest half of the cap remains.

use crate::session::lemma_views_subrange;
use crate::session::lemma_views_update;
use crate::session::lemma_views_push;
use crate::session::session_valid;
use crate::session::views;
use crate::session::AudioSession;
use crate::session::SessionModel;
use crate::session::VOLUME_SCALE;
use crate::text::str_eq;
use vstd::prelude::*;

verus! {

/// Default bound on the number of cached sessions.
pub const DEFAULT_CACHE_CAP: usize = 64;

/// Index of the first record in `s` whose identifier is `id`, or -1 when
/// there is none.
pub open spec fn id_index(s: Seq<SessionModel>, id: Seq<char>) -> int
    decreases s.len(),
{
    if s.len() == 0 {
        -1
    } else if s[0].session_id == id {
        0
    } else if id_index(s.drop_first(), id) < 0 {
        -1
    } else {
        id_index(s.drop_first(), id) + 1
    }
}

/// Whether some record in `s` carries the identifier `id`.
pub open spec fn has_id(s: Seq<SessionModel>, id: Seq<char>) -> bool {
    id_index(s, id) >= 0
}

/// `id_index` finds the first matching record.
pub proof fn lemma_id_index(s: Seq<SessionModel>, id: Seq<char>)
    ensures
        -1 <= id_index(s, id) < s.len(),
        has_id(s, id) ==> s[id_index(s, id)].session_id == id,
        forall|j: int| 0 <= j < id_index(s, id) ==> (#[trigger] s[j]).session_id != id,
        !has_id(s, id) ==> forall|j: int| 0 <= j < s.len() ==> (#[trigger] s[j]).session_id != id,
    decreases s.len(),
{
    if s.len() > 0 && s[0].session_id != id {
        lemma_id_index(s.drop_first(), id);
        assert forall|j: int| 0 <= j < id_index(s, id) implies (#[trigger] s[j]).session_id
            != id by {
            if j > 0 {
                assert(s.drop_first()[j - 1] == s[j]);
            }
        };
        if !has_id(s, id) {
            assert forall|j: int| 0 <= j < s.len() implies (#[trigger] s[j]).session_id != id by {
                if j > 0 {
                    assert(s.drop_first()[j - 1] == s[j]);
                }
            };
        }
    }
}

/// The first match determines `id_index`.
pub proof fn lemma_id_index_first(s: Seq<SessionModel>, id: Seq<char>, k: int)
    requires
        0 <= k < s.len(),
        s[k].session_id == id,
        forall|j: int| 0 <= j < k ==> (#[trigger] s[j]).session_id != id,
    ensures
        id_index(s, id) == k,
    decreases s.len(),
{
    if k > 0 {
        assert(s[0].session_id != id);
        assert(s.drop_first()[k - 1] == s[k]);
        assert forall|j: int| 0 <= j < k - 1 implies (#[trigger] s.drop_first()[j]).session_id
            != id by {
            assert(s.drop_first()[j] == s[j + 1]);
        };
        lemma_id_index_first(s.drop_first(), id, k - 1);
    }
}

/// `has_id` is the existence of a matching record.
pub proof fn lemma_has_id_exists(s: Seq<SessionModel>, id: Seq<char>)
    ensures
        has_id(s, id) <==> exists|i: int| 0 <= i < s.len() && (#[trigger] s[i]).session_id == id,
{
    lemma_id_index(s, id);
    if has_id(s, id) {
        assert(s[id_index(s, id)].session_id == id);
    }
}

/// The owning process recorded for the entry with identifier `id`
/// (meaningful when `has_id(s, id)`).
pub open spec fn owner_of(s: Seq<SessionModel>, id: Seq<char>) -> u32 {
    s[id_index(s, id)].process_id
}

/// `m` with its volume replaced.
pub open spec fn with_volume(m: SessionModel, v: u32) -> SessionModel {
    SessionModel { volume: v, ..m }
}

/// `m` with its mute flag replaced.
pub open spec fn with_mute(m: SessionModel, muted: bool) -> SessionModel {
    SessionModel { is_muted: muted, ..m }
}

/// Insert `m`, overwriting the record with the same identifier in place
/// if there is one.
pub open spec fn upsert(s: Seq<SessionModel>, m: SessionModel) -> Seq<SessionModel> {
    if has_id(s, m.session_id) {
        s.update(id_index(s, m.session_id), m)
    } else {
        s.push(m)
    }
}

/// The mapping rebuilt from the observed records of one pass, in
/// observation order, later observations of an identifier overwriting
/// earlier ones in place.
pub open spec fn rebuild(obs: Seq<SessionModel>) -> Seq<SessionModel>
    decreases obs.len(),
{
    if obs.len() == 0 {
        Seq::empty()
    } else {
        upsert(rebuild(obs.drop_last()), obs.last())
    }
}

/// No two records carry the same identifier.
pub open spec fn unique_ids(s: Seq<SessionModel>) -> bool {
    forall|i: int, j: int|
        0 <= i < j < s.len() ==> (#[trigger] s[i]).session_id != (#[trigger] s[j]).session_id
}

/// Every record is a valid session.
pub open spec fn all_valid(s: Seq<SessionModel>) -> bool {
    forall|i: int| 0 <= i < s.len() ==> session_valid(#[trigger] s[i])
}

/// Drop the oldest entries when `s` exceeds the cap, keeping the newest
/// half of the cap (rounded up).
pub open spec fn pruned(s: Seq<SessionModel>, cap: nat) -> Seq<SessionModel> {
    if s.len() <= cap {
        s
    } else {
        s.subrange(s.len() - (cap - cap / 2), s.len() as int)
    }
}

/// The cache contents after a pass observed the records `obs`, under the
/// cap `cap`.
pub open spec fn refresh_spec(obs: Seq<SessionModel>, cap: nat) -> Seq<SessionModel> {
    pruned(rebuild(obs), cap)
}

/// The cache contents after the volume of the record with identifier
/// `id` was set to `v` (meaningful when `has_id(s, id)`).
pub open spec fn update_volume_spec(s: Seq<SessionModel>, id: Seq<char>, v: u32) -> Seq<
    SessionModel,
> {
    s.update(id_index(s, id), with_volume(s[id_index(s, id)], v))
}

/// The cache contents after the mute flag of the record with identifier
/// `id` was set to `muted` (meaningful when `has_id(s, id)`).
pub open spec fn update_mute_spec(s: Seq<SessionModel>, id: Seq<char>, muted: bool) -> Seq<
    SessionModel,
> {
    s.update(id_index(s, id), with_mute(s[id_index(s, id)], muted))
}

proof fn lemma_upsert(s: Seq<SessionModel>, m: SessionModel)
    ensures
        s.len() <= upsert(s, m).len() <= s.len() + 1,
        forall|i: int|
            0 <= i < upsert(s, m).len() ==> s.contains(#[trigger] upsert(s, m)[i]) || upsert(
                s,
                m,
            )[i] == m,
        forall|id: Seq<char>|
            #[trigger] has_id(upsert(s, m), id) <==> (has_id(s, id) || id == m.session_id),
        unique_ids(s) ==> unique_ids(upsert(s, m)),
{
    lemma_id_index(s, m.session_id);
    let u = upsert(s, m);
    assert forall|i: int| 0 <= i < u.len() implies s.contains(#[trigger] u[i]) || u[i] == m by {
        if has_id(s, m.session_id) {
            if i != id_index(s, m.session_id) {
                assert(u[i] == s[i]);
            }
        } else {
            if i < s.len() {
                assert(u[i] == s[i]);
            }
        }
    };
    assert forall|id: Seq<char>| #[trigger]
        has_id(u, id) <==> (has_id(s, id) || id == m.session_id) by {
        lemma_has_id_exists(u, id);
        lemma_has_id_exists(s, id);
        if has_id(u, id) {
            let i = choose|i: int| 0 <= i < u.len() && u[i].session_id == id;
            if has_id(s, m.session_id) {
                if i != id_index(s, m.session_id) {
                    assert(s[i].session_id == id);
                }
            } else {
                if i < s.len() {
                    assert(s[i].session_id == id);
                }
            }
        }
        if has_id(s, id) || id == m.session_id {
            if id == m.session_id {
                if has_id(s, m.session_id) {
                    assert(u[id_index(s, m.session_id)].session_id == id);
                } else {
                    assert(u[s.len() as int].session_id == id);
                }
            } else {
                let k = choose|k: int| 0 <= k < s.len() && s[k].session_id == id;
                if has_id(s, m.session_id) && k == id_index(s, m.session_id) {
                    assert(s[k].session_id == m.session_id);
                } else {
                    assert(u[k].session_id == id);
                }
            }
        }
    };
    if unique_ids(s) {
        assert forall|i: int, j: int| 0 <= i < j < u.len() implies (#[trigger] u[i]).session_id
            != (#[trigger] u[j]).session_id by {
            if has_id(s, m.session_id) {
                let k = id_index(s, m.session_id);
                assert(u[i].session_id == s[i].session_id);
                assert(u[j].session_id == s[j].session_id);
            } else {
                if j < s.len() {
                } else {
                    assert(u[j] == m);
                    assert(s[i].session_id != m.session_id);
                }
            }
        };
    }
}

proof fn lemma_has_id_split_last(s: Seq<SessionModel>, id: Seq<char>)
    requires
        s.len() > 0,
    ensures
        has_id(s, id) <==> (has_id(s.drop_last(), id) || s.last().session_id == id),
{
    lemma_has_id_exists(s, id);
    lemma_has_id_exists(s.drop_last(), id);
    if has_id(s, id) {
        let i = choose|i: int| 0 <= i < s.len() && s[i].session_id == id;
        if i < s.len() - 1 {
            assert(s.drop_last()[i] == s[i]);
        }
    }
    if has_id(s.drop_last(), id) {
        let i = choose|i: int|
            0 <= i < s.drop_last().len() && s.drop_last()[i].session_id == id;
        assert(s[i] == s.drop_last()[i]);
    }
    if s.last().session_id == id {
        assert(s[s.len() - 1].session_id == id);
    }
}

/// What one pass's rebuild yields: only observed records, exactly the
/// observed identifiers, each identifier once.
pub proof fn lemma_rebuild(obs: Seq<SessionModel>)
    ensures
        rebuild(obs).len() <= obs.len(),
        unique_ids(rebuild(obs)),
        forall|i: int|
            0 <= i < rebuild(obs).len() ==> obs.contains(#[trigger] rebuild(obs)[i]),
        forall|id: Seq<char>| #[trigger] has_id(rebuild(obs), id) <==> has_id(obs, id),
    decreases obs.len(),
{
    if obs.len() == 0 {
        assert forall|id: Seq<char>| !(#[trigger] has_id(rebuild(obs), id)) && !has_id(
            obs,
            id,
        ) by {
            lemma_id_index(rebuild(obs), id);
            lemma_id_index(obs, id);
        };
    } else {
        let dl = obs.drop_last();
        lemma_rebuild(dl);
        lemma_upsert(rebuild(dl), obs.last());
        assert forall|i: int| 0 <= i < rebuild(obs).len() implies obs.contains(
            #[trigger] rebuild(obs)[i],
        ) by {
            if rebuild(obs)[i] == obs.last() {
                assert(obs[obs.len() - 1] == obs.last());
            } else {
                assert(rebuild(dl).contains(rebuild(obs)[i]));
                let k = choose|k: int| 0 <= k < dl.len() && dl[k] == rebuild(obs)[i];
                assert(obs[k] == dl[k]);
            }
        };
        assert forall|id: Seq<char>| #[trigger]
            has_id(rebuild(obs), id) <==> has_id(obs, id) by {
            lemma_has_id_split_last(obs, id);
        };
    }
}

/// What pruning yields: a cache no larger than the cap, holding only
/// records (and identifiers) it already held, uniqueness kept, and the
/// contents untouched while the cap is respected.
pub proof fn lemma_pruned(s: Seq<SessionModel>, cap: nat)
    requires
        cap >= 1,
    ensures
        pruned(s, cap).len() <= cap,
        forall|i: int| 0 <= i < pruned(s, cap).len() ==> s.contains(#[trigger] pruned(s, cap)[i]),
        forall|id: Seq<char>| #[trigger] has_id(pruned(s, cap), id) ==> has_id(s, id),
        unique_ids(s) ==> unique_ids(pruned(s, cap)),
        s.len() <= cap ==> pruned(s, cap) == s,
{
    let p = pruned(s, cap);
    if s.len() > cap {
        let start = s.len() - (cap - cap / 2);
        assert forall|i: int| 0 <= i < p.len() implies s.contains(#[trigger] p[i]) by {
            assert(p[i] == s[i + start]);
        };
        assert forall|id: Seq<char>| #[trigger] has_id(p, id) implies has_id(s, id) by {
            lemma_has_id_exists(p, id);
            lemma_has_id_exists(s, id);
            if has_id(p, id) {
                let i = choose|i: int| 0 <= i < p.len() && p[i].session_id == id;
                assert(s[i + start].session_id == id);
            }
        };
        if unique_ids(s) {
            assert forall|i: int, j: int| 0 <= i < j < p.len() implies (
            #[trigger] p[i]).session_id != (#[trigger] p[j]).session_id by {
                assert(p[i] == s[i + start]);
                assert(p[j] == s[j + start]);
            };
        }
    }
}

/// After a refresh the cache holds only records observed in the pass,
/// no identifier that the pass did not observe, and each identifier at
/// most once (the eviction guarantee).
pub proof fn lemma_refresh_membership(obs: Seq<SessionModel>, cap: nat)
    requires
        cap >= 1,
    ensures
        forall|i: int|
            0 <= i < refresh_spec(obs, cap).len() ==> obs.contains(
                #[trigger] refresh_spec(obs, cap)[i],
            ),
        forall|id: Seq<char>| #[trigger] has_id(refresh_spec(obs, cap), id) ==> has_id(obs, id),
        unique_ids(refresh_spec(obs, cap)),
{
    lemma_rebuild(obs);
    lemma_pruned(rebuild(obs), cap);
    assert forall|i: int| 0 <= i < refresh_spec(obs, cap).len() implies obs.contains(
        #[trigger] refresh_spec(obs, cap)[i],
    ) by {
        assert(rebuild(obs).contains(refresh_spec(obs, cap)[i]));
        let k = choose|k: int|
            0 <= k < rebuild(obs).len() && rebuild(obs)[k] == refresh_spec(obs, cap)[i];
        assert(obs.contains(rebuild(obs)[k]));
    };
}

/// While the pass's rebuild fits under the cap, nothing is pruned: the
/// cache then holds exactly the observed identifiers.
pub proof fn lemma_refresh_complete(obs: Seq<SessionModel>, cap: nat)
    requires
        cap >= 1,
        rebuild(obs).len() <= cap,
    ensures
        forall|id: Seq<char>| #[trigger] has_id(refresh_spec(obs, cap), id) <==> has_id(obs, id),
{
    lemma_rebuild(obs);
    lemma_pruned(rebuild(obs), cap);
}

/// A refreshed cache never exceeds its cap.
pub proof fn lemma_refresh_len(obs: Seq<SessionModel>, cap: nat)
    requires
        cap >= 1,
    ensures
        refresh_spec(obs, cap).len() <= cap,
{
    lemma_pruned(rebuild(obs), cap);
}

/// A refresh of a cache that only saw valid records yields valid records.
pub proof fn lemma_refresh_valid(obs: Seq<SessionModel>, cap: nat)
    requires
        cap >= 1,
        all_valid(obs),
    ensures
        all_valid(refresh_spec(obs, cap)),
{
    lemma_refresh_membership(obs, cap);
    assert forall|i: int| 0 <= i < refresh_spec(obs, cap).len() implies session_valid(
        #[trigger] refresh_spec(obs, cap)[i],
    ) by {
        assert(obs.contains(refresh_spec(obs, cap)[i]));
        let k = choose|k: int| 0 <= k < obs.len() && obs[k] == refresh_spec(obs, cap)[i];
        assert(session_valid(obs[k]));
    };
}

proof fn lemma_update_keeps_wf(s: Seq<SessionModel>, i: int, m: SessionModel)
    requires
        0 <= i < s.len(),
        unique_ids(s),
        all_valid(s),
        m.session_id == s[i].session_id,
        session_valid(m),
    ensures
        unique_ids(s.update(i, m)),
        all_valid(s.update(i, m)),
{
    let u = s.update(i, m);
    assert forall|a: int, b: int| 0 <= a < b < u.len() implies (#[trigger] u[a]).session_id != (
    #[trigger] u[b]).session_id by {
        assert(u[a].session_id == s[a].session_id);
        assert(u[b].session_id == s[b].session_id);
    };
    assert forall|a: int| 0 <= a < u.len() implies session_valid(#[trigger] u[a]) by {
        if a != i {
            assert(u[a] == s[a]);
        }
    };
}

/// The bounded, insertion-ordered session cache.  External callers only
/// ever receive copies of its entries.
pub struct SessionCache {
    entries: Vec<AudioSession>,
    cap: usize,
}

impl View for SessionCache {
    type V = Seq<SessionModel>;

    closed spec fn view(&self) -> Seq<SessionModel> {
        views(self.entries@)
    }
}

impl SessionCache {
    /// The configured bound on the number of entries.
    pub closed spec fn cap_spec(&self) -> nat {
        self.cap as nat
    }

    /// Well-formedness: a usable cap, each identifier held at most once,
    /// only valid records, and the cap respected.
    pub open spec fn wf(&self) -> bool {
        &&& self.cap_spec() >= 1
        &&& unique_ids(self@)
        &&& all_valid(self@)
        &&& self@.len() <= self.cap_spec()
    }

    /// An empty cache bounded by `cap` entries.
    pub fn new(cap: usize) -> (c: SessionCache)
        requires
            cap >= 1,
        ensures
            c.wf(),
            c@ == Seq::<SessionModel>::empty(),
            c.cap_spec() == cap,
    {
        let c = SessionCache { entries: Vec::new(), cap };
        proof {
            assert(views(c.entries@) =~= Seq::<SessionModel>::empty());
        }
        c
    }

    /// Position of the entry with the given identifier, if any.
    fn find_index(&self, session_id: &str) -> (r: Option<usize>)
        ensures
            match r {
                Some(i) => has_id(self@, session_id@) && i == id_index(self@, session_id@)
                    && i < self@.len() && self.entries@.len() == self@.len(),
                None => !has_id(self@, session_id@),
            },
    {
        let mut i: usize = 0;
        while i < self.entries.len()
            invariant
                i <= self.entries@.len(),
                forall|j: int| 0 <= j < i ==> (#[trigger] self@[j]).session_id != session_id@,
            decreases self.entries@.len() - i,
        {
            let e = &self.entries[i];
            if str_eq(e.session_id.as_str(), session_id) {
                proof {
                    lemma_id_index_first(self@, session_id@, i as int);
                }
                return Some(i);
            }
            i += 1;
        }
        proof {
            lemma_has_id_exists(self@, session_id@);
        }
        None
    }

    /// Number of cached entries.
    pub fn len(&self) -> (n: usize)
        ensures
            n == self@.len(),
    {
        self.entries.len()
    }

    /// The owning process of the entry with the given identifier.
    pub fn find_process_id(&self, session_id: &str) -> (r: Option<u32>)
        ensures
            match r {
                Some(pid) => has_id(self@, session_id@) && pid == self@[
                    id_index(self@, session_id@)
                ].process_id,
                None => !has_id(self@, session_id@),
            },
    {
        match self.find_index(session_id) {
            Some(i) => {
                let e = &self.entries[i];
                Some(e.process_id)
            },
            None => None,
        }
    }

    /// Copies of all cached entries, in insertion order.
    pub fn snapshot(&self) -> (v: Vec<AudioSession>)
        ensures
            views(v@) == self@,
    {
        let mut out: Vec<AudioSession> = Vec::new();
        let mut i: usize = 0;
        proof {
            assert(views(out@) =~= self@.subrange(0, 0));
        }
        while i < self.entries.len()
            invariant
                i <= self.entries@.len(),
                views(out@) == self@.subrange(0, i as int),
            decreases self.entries@.len() - i,
        {
            let e = &self.entries[i];
            let c = e.clone();
            proof {
                lemma_views_push(out@, c);
                assert(self@.subrange(0, i as int + 1) =~= self@.subrange(0, i as int) + seq![
                    self@[i as int],
                ]);
            }
            out.push(c);
            i += 1;
        }
        proof {
            assert(self@.subrange(0, self@.len() as int) =~= self@);
        }
        out
    }

    /// Drop every entry.
    pub fn clear(&mut self)
        requires
            old(self).wf(),
        ensures
            final(self).wf(),
            final(self).cap_spec() == old(self).cap_spec(),
            final(self)@ == Seq::<SessionModel>::empty(),
    {
        self.entries.clear();
        proof {
            assert(views(self.entries@) =~= Seq::<SessionModel>::empty());
        }
    }

    /// Replace the contents with the records observed in one enumeration
    /// pass: every observed record inserted (overwriting in place on an
    /// identifier collision), entries the pass did not observe evicted,
    /// and the result pruned to the cap.
    pub fn refresh(&mut self, observed: &Vec<AudioSession>)
        requires
            old(self).wf(),
            all_valid(views(observed@)),
        ensures
            final(self).wf(),
            final(self).cap_spec() == old(self).cap_spec(),
            final(self)@ == refresh_spec(views(observed@), old(self).cap_spec()),
    {
        let ghost obs = views(observed@);
        self.entries.clear();
        proof {
            assert(views(self.entries@) =~= Seq::<SessionModel>::empty());
            assert(obs.take(0) =~= Seq::<SessionModel>::empty());
        }
        let mut oi: usize = 0;
        while oi < observed.len()
            invariant
                oi <= observed@.len(),
                obs == views(observed@),
                self.cap == old(self).cap,
                views(self.entries@) == rebuild(obs.take(oi as int)),
            decreases observed@.len() - oi,
        {
            let src = &observed[oi];
            let m = src.clone();
            proof {
                assert(obs.take(oi as int + 1).drop_last() =~= obs.take(oi as int));
                assert(obs.take(oi as int + 1).last() == obs[oi as int]);
                assert(m@ == obs[oi as int]);
            }
            let found = self.find_index(m.session_id.as_str());
            match found {
                Some(i) => {
                    proof {
                        lemma_id_index(views(self.entries@), m.session_id@);
                        lemma_views_update(self.entries@, i as int, m);
                    }
                    self.entries[i] = m;
                },
                None => {
                    proof {
                        lemma_views_push(self.entries@, m);
                    }
                    self.entries.push(m);
                },
            }
            oi += 1;
        }
        proof {
            assert(obs.take(obs.len() as int) =~= obs);
            lemma_rebuild(obs);
            lemma_pruned(rebuild(obs), self.cap as nat);
        }
        if self.entries.len() > self.cap {
            let keep = self.cap - self.cap / 2;
            let start = self.entries.len() - keep;
            let ghost pre = self.entries@;
            let tail = self.entries.split_off(start);
            proof {
                lemma_views_subrange(pre, start as int, pre.len() as int);
            }
            self.entries = tail;
        }
        proof {
            lemma_refresh_membership(obs, old(self).cap_spec());
            lemma_refresh_valid(obs, old(self).cap_spec());
            lemma_refresh_len(obs, old(self).cap_spec());
        }
    }

    /// Set the volume recorded for the entry with the given identifier;
    /// reports whether such an entry existed.  Nothing else changes.
    pub fn update_volume(&mut self, session_id: &str, v: u32) -> (updated: bool)
        requires
            old(self).wf(),
            v <= VOLUME_SCALE,
        ensures
            final(self).wf(),
            final(self).cap_spec() == old(self).cap_spec(),
            updated == has_id(old(self)@, session_id@),
            updated ==> final(self)@ == update_volume_spec(old(self)@, session_id@, v),
            !updated ==> final(self)@ == old(self)@,
    {
        match self.find_index(session_id) {
            Some(i) => {
                let e = &self.entries[i];
                let changed = AudioSession {
                    session_id: e.session_id.clone(),
                    display_name: e.display_name.clone(),
                    process_id: e.process_id,
                    process_name: e.process_name.clone(),
                    volume: v,
                    is_muted: e.is_muted,
                };
                proof {
                    lemma_id_index(self@, session_id@);
                    assert(changed@ == with_volume(self@[i as int], v));
                    lemma_views_update(self.entries@, i as int, changed);
                    assert(session_valid(self@[i as int]));
                    lemma_update_keeps_wf(self@, i as int, changed@);
                }
                self.entries[i] = changed;
                true
            },
            None => false,
        }
    }

    /// Set the mute flag recorded for the entry with the given
    /// identifier; reports whether such an entry existed.
    pub fn update_mute(&mut self, session_id: &str, muted: bool) -> (updated: bool)
        requires
            old(self).wf(),
        ensures
            final(self).wf(),
            final(self).cap_spec() == old(self).cap_spec(),
            updated == has_id(old(self)@, session_id@),
            updated ==> final(self)@ == update_mute_spec(old(self)@, session_id@, muted),
            !updated ==> final(self)@ == old(self)@,
    {
        match self.find_index(session_id) {
            Some(i) => {
                let e = &self.entries[i];
                let changed = AudioSession {
                    session_id: e.session_id.clone(),
                    display_name: e.display_name.clone(),
                    process_id: e.process_id,
                    process_name: e.process_name.clone(),
                    volume: e.volume,
                    is_muted: muted,
                };
                proof {
                    lemma_id_index(self@, session_id@);
                    assert(changed@ == with_mute(self@[i as int], muted));
                    lemma_views_update(self.entries@, i as int, changed);
                    assert(session_valid(self@[i as int]));
                    lemma_update_keeps_wf(self@, i as int, changed@);
                }
                self.entries[i] = changed;
                true
            },
            None => false,
        }
    }
}

} // verus!
