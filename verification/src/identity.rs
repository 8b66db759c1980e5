//! Identity resolution: mapping a numeric process identifier, together
//! with the image path the operating system reported for it (if any), to
//! a human-readable executable name.  The function is total: whatever the
//! query returned, some deterministic name comes back.

use crate::text::dec_rep;
use crate::text::lemma_dec_rep_len;
use crate::text::u64_to_string;
use vstd::prelude::*;
use vstd::string::StrSliceExecFns;
use vstd::string::StringExecFns;

verus! {

/// Index of the last path separator (backslash) in `s`, or -1 when there
/// is none.
pub open spec fn last_sep(s: Seq<char>) -> int
    decreases s.len(),
{
    if s.len() == 0 {
        -1
    } else if s[s.len() - 1] == '\\' {
        s.len() - 1
    } else {
        last_sep(s.drop_last())
    }
}

/// What follows the last path separator of `s` (all of `s` when there is
/// none): the filename part of a full image path.
pub open spec fn tail_segment(s: Seq<char>) -> Seq<char> {
    s.subrange(last_sep(s) + 1, s.len() as int)
}

/// The generated placeholder name for a process whose image could not be
/// resolved.
pub open spec fn fallback_name_spec(pid: u32) -> Seq<char> {
    "Process "@ + dec_rep(pid as nat)
}

/// The name resolved for `pid` given the image path the system reported:
/// process 0 is the system mix session; otherwise the filename part of
/// the path, falling back to the generated placeholder when the query
/// failed or yielded no filename.
pub open spec fn resolved_name_spec(pid: u32, path: Option<Seq<char>>) -> Seq<char> {
    if pid == 0 {
        "System"@
    } else {
        match path {
            Some(p) => if tail_segment(p).len() > 0 {
                tail_segment(p)
            } else {
                fallback_name_spec(pid)
            },
            None => fallback_name_spec(pid),
        }
    }
}

/// `last_sep` stays below the length of the sequence.
proof fn lemma_last_sep_bounds(s: Seq<char>)
    ensures
        -1 <= last_sep(s) < s.len(),
    decreases s.len(),
{
    if s.len() > 0 && s[s.len() - 1] != '\\' {
        lemma_last_sep_bounds(s.drop_last());
    }
}

/// First character position after the last backslash of `p`.
fn tail_start(p: &str) -> (start: usize)
    ensures
        start == last_sep(p@) + 1,
        start <= p@.len(),
{
    let len = p.unicode_len();
    let mut i: usize = len;
    proof {
        assert(p@.subrange(0, len as int) =~= p@);
    }
    while i > 0
        invariant
            i <= len,
            len == p@.len(),
            last_sep(p@) == last_sep(p@.subrange(0, i as int)),
        decreases i,
    {
        if p.get_char(i - 1) == '\\' {
            proof {
                assert(p@.subrange(0, i as int)[i as int - 1] == '\\');
            }
            return i;
        }
        proof {
            assert(p@.subrange(0, i as int).drop_last() =~= p@.subrange(0, i as int - 1));
        }
        i -= 1;
    }
    proof {
        assert(p@.subrange(0, 0) =~= Seq::<char>::empty());
    }
    0
}

/// The generated placeholder name for `pid`.
pub(crate) fn fallback_name(pid: u32) -> (s: String)
    ensures
        s@ == fallback_name_spec(pid),
        s@.len() >= 1,
{
    let mut s = String::from_str("Process ");
    let digits = u64_to_string(pid as u64);
    s.append(digits.as_str());
    proof {
        lemma_dec_rep_len(pid as nat);
    }
    s
}

/// Resolve a human-readable executable name for a process.
///
/// `image_path` is the full image path the operating system reported for
/// the process, or `None` when the process could not be queried.  The
/// result is never empty: process 0 resolves to `"System"`, a usable path
/// resolves to its filename part, and everything else resolves to the
/// deterministic `"Process {pid}"` placeholder.
pub fn resolve_process_name(process_id: u32, image_path: Option<&str>) -> (name: String)
    ensures
        name@ == resolved_name_spec(
            process_id,
            match image_path {
                Some(p) => Some(p@),
                None => None,
            },
        ),
        process_id == 0 ==> name@ == "System"@,
        name@.len() >= 1,
{
    if process_id == 0 {
        let name = String::from_str("System");
        proof {
            reveal_strlit("System");
        }
        return name;
    }
    match image_path {
        Some(p) => {
            let start = tail_start(p);
            let len = p.unicode_len();
            let seg = p.substring_char(start, len);
            proof {
                lemma_last_sep_bounds(p@);
                assert(seg@ == tail_segment(p@));
            }
            if seg.unicode_len() > 0 {
                String::from_str(seg)
            } else {
                fallback_name(process_id)
            }
        },
        None => fallback_name(process_id),
    }
}

} // verus!
