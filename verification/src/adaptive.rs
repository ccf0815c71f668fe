//! Adaptive capture sessions: the region of interest, the candidate limits,
//! how many sessions may run, and how a session advances.
use vstd::prelude::*;
use crate::text::{decimal, push_decimal, push_str, str_equal, string_of};

verus! {

/// The region of the sensor an adaptive capture measures.
#[derive(Debug, Clone, Copy, PartialEq, Eq, Structural)]
pub struct RoiRequest {
    pub x: u32,
    pub y: u32,
    pub width: u32,
    pub height: u32,
}

/// A session focuses at 1 to 256 distances.
pub fn check_focus_candidates(count: usize) -> (r: Result<(), &'static str>)
    ensures
        (1 <= count <= 256) ==> r is Ok,
        !(1 <= count <= 256) ==> (r matches Err(e) && e@ == "focus_diopters must contain 1..=256 values"@),
{
    if count == 0 || count > 256 {
        Err("focus_diopters must contain 1..=256 values")
    } else {
        Ok(())
    }
}

/// The candidate grid of a session has at most 4096 entries.
pub fn check_candidate_grid(count: usize) -> (r: Result<(), String>)
    ensures
        count <= 4096 ==> r is Ok,
        count > 4096 ==> (r matches Err(e)
            && e@ == "Adaptive API candidate grid has "@ + decimal(count as nat) + " entries; limit is 4096"@),
{
    if count <= 4096 {
        return Ok(());
    }
    let mut v: Vec<char> = Vec::new();
    push_str(&mut v, "Adaptive API candidate grid has ");
    push_decimal(&mut v, count as u64);
    push_str(&mut v, " entries; limit is 4096");
    Err(string_of(v.as_slice()))
}

/// At most 32 sessions are kept: when the table is full, finished sessions
/// are pruned first; the first flag says whether to prune, the second
/// whether the new session is admitted.
pub fn session_admission(sessions: usize, unfinished: usize) -> (r: (bool, bool))
    requires
        unfinished <= sessions,
    ensures
        r.0 == (sessions >= 32),
        r.1 == ((if sessions >= 32 { unfinished } else { sessions }) < 32),
{
    let prune = sessions >= 32;
    let remaining = if prune { unfinished } else { sessions };
    (prune, remaining < 32)
}

/// An adaptive capture session as the server keeps it: its id, its camera,
/// how many observations it has assimilated, and the measurement state.
pub struct AdaptiveSession<S> {
    pub id: String,
    pub camera_id: String,
    pub generation: u64,
    pub core: S,
}

/// The sessions of `s` whose completion flag in `complete` is false, in order.
pub open spec fn unfinished_sessions<S>(s: Seq<AdaptiveSession<S>>, complete: Seq<bool>) -> Seq<AdaptiveSession<S>>
    decreases s.len(),
{
    if s.len() == 0 || complete.len() == 0 {
        Seq::empty()
    } else {
        unfinished_sessions(s.drop_last(), complete.drop_last())
            + (if complete.last() { Seq::empty() } else { seq![s.last()] })
    }
}

/// The table after pruning: finished sessions are dropped only when the
/// table holds 32 or more.
pub open spec fn pruned_sessions<S>(s: Seq<AdaptiveSession<S>>, complete: Seq<bool>) -> Seq<AdaptiveSession<S>> {
    if s.len() >= 32 { unfinished_sessions(s, complete) } else { s }
}

pub open spec fn distinct_session_ids<S>(s: Seq<AdaptiveSession<S>>) -> bool {
    forall|i: int, j: int| 0 <= i < j < s.len() ==> s[i].id@ != s[j].id@
}

proof fn lemma_unfinished_len<S>(s: Seq<AdaptiveSession<S>>, complete: Seq<bool>)
    requires
        s.len() == complete.len(),
    ensures
        unfinished_sessions(s, complete).len() <= s.len(),
        forall|i: int| 0 <= i < unfinished_sessions(s, complete).len() ==>
            exists|k: int| 0 <= k < s.len() && #[trigger] unfinished_sessions(s, complete)[i] == s[k],
        distinct_session_ids(s) ==> distinct_session_ids(unfinished_sessions(s, complete)),
    decreases s.len(),
{
    if s.len() > 0 {
        let s0 = s.drop_last();
        let c0 = complete.drop_last();
        lemma_unfinished_len(s0, c0);
        let u0 = unfinished_sessions(s0, c0);
        let u = unfinished_sessions(s, complete);
        assert forall|i: int| 0 <= i < u.len() implies exists|k: int| 0 <= k < s.len() && #[trigger] u[i] == s[k] by {
            if i < u0.len() {
                assert(u[i] == u0[i]);
                let k = choose|k: int| 0 <= k < s0.len() && u0[i] == s0[k];
                assert(u[i] == s[k]);
            } else {
                assert(u[i] == s[s.len() - 1]);
            }
        }
        if distinct_session_ids(s) {
            assert(distinct_session_ids(s0));
            assert forall|i: int, j: int| 0 <= i < j < u.len() implies u[i].id@ != u[j].id@ by {
                if j < u0.len() {
                    assert(u[i] == u0[i] && u[j] == u0[j]);
                } else {
                    assert(u[j] == s[s.len() - 1]);
                    assert(u[i] == u0[i]);
                    let k = choose|k: int| 0 <= k < s0.len() && u0[i] == s0[k];
                    assert(u[i] == s[k]);
                }
            }
        }
    }
}

/// A table with `new` stored under its id: the session with that id is
/// replaced in place, or `new` is added at the end when the id is new.
pub open spec fn session_stored<S>(s: Seq<AdaptiveSession<S>>, new: AdaptiveSession<S>) -> Seq<AdaptiveSession<S>> {
    if exists|k: int| 0 <= k < s.len() && s[k].id@ == new.id@ {
        s.update(choose|k: int| 0 <= k < s.len() && s[k].id@ == new.id@, new)
    } else {
        s.push(new)
    }
}

/// Starts a session in the table: when the table is full, finished sessions
/// (`complete` holds one flag per session) are pruned; if 32 sessions still
/// remain the start is refused and nothing is added, otherwise the new
/// session is stored under its id with generation 0. The table never holds
/// more than 32 sessions.
pub fn admit_session<S>(
    sessions: &mut Vec<AdaptiveSession<S>>,
    complete: &Vec<bool>,
    id: String,
    camera_id: String,
    core: S,
) -> (r: Result<(), &'static str>)
    requires
        complete@.len() == old(sessions)@.len(),
        old(sessions)@.len() <= 32,
        distinct_session_ids(old(sessions)@),
    ensures
        ({
            let pruned = pruned_sessions(old(sessions)@, complete@);
            &&& pruned.len() >= 32 ==> (r matches Err(e) && e@ == "Too many active adaptive capture sessions"@
                && final(sessions)@ == pruned)
            &&& pruned.len() < 32 ==> (r is Ok && final(sessions)@ == session_stored(pruned,
                (AdaptiveSession { id: id, camera_id: camera_id, generation: 0u64, core: core })))
        }),
        final(sessions)@.len() <= 32,
        distinct_session_ids(final(sessions)@),
{
    let ghost all = sessions@;
    if sessions.len() >= 32 {
        let mut rest: Vec<AdaptiveSession<S>> = Vec::new();
        std::mem::swap(sessions, &mut rest);
        let n = rest.len();
        let mut i: usize = 0;
        while i < n
            invariant
                i <= n,
                n == all.len(),
                complete@.len() == n,
                rest@ == all.skip(i as int),
                sessions@ == unfinished_sessions(all.take(i as int), complete@.take(i as int)),
            decreases n - i,
        {
            let e = rest.remove(0);
            assert(all.take(i + 1).drop_last() =~= all.take(i as int));
            assert(complete@.take(i + 1).drop_last() =~= complete@.take(i as int));
            assert(all.take(i + 1).last() == all[i as int]);
            if !complete[i] {
                sessions.push(e);
            }
            assert(rest@ =~= all.skip(i + 1));
            i = i + 1;
        }
        assert(all.take(n as int) =~= all);
        assert(complete@.take(n as int) =~= complete@);
    }
    proof {
        lemma_unfinished_len(all, complete@);
    }
    assert(sessions@ == pruned_sessions(all, complete@));
    assert(distinct_session_ids(sessions@));
    if sessions.len() >= 32 {
        return Err("Too many active adaptive capture sessions");
    }
    let ghost pruned = sessions@;
    let new = AdaptiveSession { id, camera_id, generation: 0, core };
    let mut k: usize = 0;
    while k < sessions.len()
        invariant
            k <= sessions@.len(),
            sessions@ == pruned,
            pruned == pruned_sessions(old(sessions)@, complete@),
            new == (AdaptiveSession { id: id, camera_id: camera_id, generation: 0u64, core: core }),
            pruned.len() < 32,
            distinct_session_ids(pruned),
            forall|a: int| 0 <= a < k ==> pruned[a].id@ != new.id@,
        decreases sessions@.len() - k,
    {
        if str_equal(sessions[k].id.as_str(), new.id.as_str()) {
            let ghost nid = new.id@;
            let ghost nv = new;
            sessions.set(k, new);
            proof {
                assert(pruned[k as int].id@ == nid);
                assert(exists|j: int| 0 <= j < pruned.len() && pruned[j].id@ == nid);
                let c = choose|j: int| 0 <= j < pruned.len() && pruned[j].id@ == nid;
                assert(c == k as int);
                assert(sessions@ == pruned.update(k as int, nv));
                assert forall|a: int, b: int| 0 <= a < b < sessions@.len() implies sessions@[a].id@ != sessions@[b].id@ by {
                    if a == k as int {
                        assert(pruned[b].id@ != pruned[k as int].id@);
                    } else if b == k as int {
                        assert(pruned[a].id@ != pruned[k as int].id@);
                    }
                }
            }
            return Ok(());
        }
        k = k + 1;
    }
    let ghost nv = new;
    sessions.push(new);
    assert(!(exists|j: int| 0 <= j < pruned.len() && pruned[j].id@ == nv.id@));
    assert forall|a: int, b: int| 0 <= a < b < sessions@.len() implies sessions@[a].id@ != sessions@[b].id@ by {
        if b == pruned.len() {
            assert(pruned[a].id@ != nv.id@);
        } else {
            assert(sessions@[a] == pruned[a] && sessions@[b] == pruned[b]);
        }
    }
    Ok(())
}

/// A session advances only from the generation an observation was read at.
pub fn advance_generation(current: u64, expected: u64) -> (r: Result<u64, &'static str>)
    requires
        current < u64::MAX,
    ensures
        current == expected ==> r == Ok::<u64, &'static str>((current + 1) as u64),
        current != expected ==> (r matches Err(e) && e@ == "Adaptive capture session advanced concurrently"@),
{
    if current != expected {
        Err("Adaptive capture session advanced concurrently")
    } else {
        Ok(current + 1)
    }
}

} // verus!
