//! Ordering of listed files: newest first, keeping the order of equally old
//! entries, and the ranking of fusion report candidates.
use vstd::prelude::*;

verus! {

/// The first index at or after `from` whose key is below `k` (the length of
/// `s` when there is none).
pub open spec fn first_below<T>(s: Seq<(i64, T)>, k: i64, from: int) -> int
    decreases s.len() - from,
{
    if from >= s.len() {
        s.len() as int
    } else if s[from].0 < k {
        from
    } else {
        first_below(s, k, from + 1)
    }
}

/// `x` placed after every entry of `sorted` whose key is at least its own.
pub open spec fn insert_newest<T>(sorted: Seq<(i64, T)>, x: (i64, T)) -> Seq<(i64, T)> {
    sorted.insert(first_below(sorted, x.0, 0), x)
}

/// The entries of `s` by key, largest first; entries with equal keys keep
/// their order in `s`.
pub open spec fn newest_first_order<T>(s: Seq<(i64, T)>) -> Seq<(i64, T)>
    decreases s.len(),
{
    if s.len() == 0 {
        s
    } else {
        insert_newest(newest_first_order(s.drop_last()), s.last())
    }
}

/// Keys never increase along `s`.
pub open spec fn keys_descending<T>(s: Seq<(i64, T)>) -> bool {
    forall|i: int, j: int| 0 <= i <= j < s.len() ==> s[i].0 >= s[j].0
}

proof fn lemma_first_below<T>(s: Seq<(i64, T)>, k: i64, from: int)
    requires
        0 <= from <= s.len(),
    ensures
        from <= first_below(s, k, from) <= s.len(),
        forall|t: int| from <= t < first_below(s, k, from) ==> s[t].0 >= k,
        first_below(s, k, from) < s.len() ==> s[first_below(s, k, from)].0 < k,
    decreases s.len() - from,
{
    if from < s.len() && s[from].0 >= k {
        lemma_first_below(s, k, from + 1);
    }
}

/// The order is sorted by key, largest first, and holds each entry of `s` as
/// often as `s` does.
pub proof fn lemma_newest_first_order<T>(s: Seq<(i64, T)>)
    ensures
        keys_descending(newest_first_order(s)),
        newest_first_order(s).to_multiset() =~= s.to_multiset(),
        newest_first_order(s).len() == s.len(),
    decreases s.len(),
{
    broadcast use vstd::seq_lib::group_to_multiset_ensures;
    if s.len() > 0 {
        let rest = newest_first_order(s.drop_last());
        lemma_newest_first_order(s.drop_last());
        let x = s.last();
        let p = first_below(rest, x.0, 0);
        lemma_first_below(rest, x.0, 0);
        let r = rest.insert(p, x);
        assert forall|i: int, j: int| 0 <= i <= j < r.len() implies r[i].0 >= r[j].0 by {
            if i < p && j < p {
            } else if i < p && j == p {
            } else if i < p && j > p {
                assert(r[j] == rest[j - 1]);
            } else if i == p && j == p {
            } else if i == p && j > p {
                assert(r[j] == rest[j - 1]);
                assert(rest[p].0 >= rest[j - 1].0);
            } else {
                assert(r[i] == rest[i - 1]);
                assert(r[j] == rest[j - 1]);
            }
        }
        assert(r.remove(p) =~= rest);
        assert(r.to_multiset().remove(x) =~= rest.to_multiset());
        assert(s.drop_last().push(x) =~= s);
        assert(r.to_multiset() =~= rest.to_multiset().insert(x));
    }
}

/// The entries of `s` whose key is `k`, in their order in `s`.
pub open spec fn with_key<T>(s: Seq<(i64, T)>, k: i64) -> Seq<(i64, T)>
    decreases s.len(),
{
    if s.len() == 0 {
        s
    } else if s.last().0 == k {
        with_key(s.drop_last(), k).push(s.last())
    } else {
        with_key(s.drop_last(), k)
    }
}

proof fn lemma_with_key_add<T>(a: Seq<(i64, T)>, b: Seq<(i64, T)>, k: i64)
    ensures
        with_key(a + b, k) == with_key(a, k) + with_key(b, k),
    decreases b.len(),
{
    if b.len() == 0 {
        assert(a + b =~= a);
        assert(with_key(a, k) + with_key(b, k) =~= with_key(a, k));
    } else {
        lemma_with_key_add(a, b.drop_last(), k);
        assert((a + b).drop_last() =~= a + b.drop_last());
        assert((a + b).last() == b.last());
        if b.last().0 == k {
            assert(with_key(a, k) + with_key(b.drop_last(), k).push(b.last())
                =~= (with_key(a, k) + with_key(b.drop_last(), k)).push(b.last()));
        }
    }
}

proof fn lemma_with_key_none<T>(b: Seq<(i64, T)>, k: i64)
    requires
        forall|t: int| 0 <= t < b.len() ==> (#[trigger] b[t]).0 != k,
    ensures
        with_key(b, k).len() == 0,
    decreases b.len(),
{
    if b.len() > 0 {
        assert(b.last() == b[b.len() - 1]);
        assert forall|t: int| 0 <= t < b.drop_last().len() implies (#[trigger] b.drop_last()[t]).0 != k by {
            assert(b.drop_last()[t] == b[t]);
        }
        lemma_with_key_none(b.drop_last(), k);
    }
}

/// Sorting newest first is stable: the entries of each age keep the order
/// they had.
pub proof fn newest_first_keeps_equal_keys_in_order<T>(s: Seq<(i64, T)>, k: i64)
    ensures
        with_key(newest_first_order(s), k) == with_key(s, k),
    decreases s.len(),
{
    if s.len() > 0 {
        let rest = newest_first_order(s.drop_last());
        newest_first_keeps_equal_keys_in_order(s.drop_last(), k);
        lemma_newest_first_order(s.drop_last());
        let x = s.last();
        let p = first_below(rest, x.0, 0);
        lemma_first_below(rest, x.0, 0);
        let front = rest.take(p);
        let back = rest.skip(p);
        assert(rest.insert(p, x) =~= front + seq![x] + back);
        assert(rest =~= front + back);
        lemma_with_key_add(front + seq![x], back, k);
        lemma_with_key_add(front, seq![x], k);
        lemma_with_key_add(front, back, k);
        assert(seq![x].drop_last() =~= Seq::<(i64, T)>::empty());
        assert(seq![x].last() == x);
        assert(with_key(Seq::<(i64, T)>::empty(), k) == Seq::<(i64, T)>::empty());
        assert(with_key(seq![x], k) == if x.0 == k { seq![x] } else { Seq::<(i64, T)>::empty() }) by {
            assert(Seq::<(i64, T)>::empty().push(x) =~= seq![x]);
        }
        assert(s =~= s.drop_last().push(x));
        if k == x.0 {
            assert forall|t: int| 0 <= t < back.len() implies (#[trigger] back[t]).0 != k by {
                assert(back[t] == rest[p + t]);
                assert(rest[p].0 >= rest[p + t].0);
            }
            lemma_with_key_none(back, k);
            assert(with_key(back, k) =~= Seq::<(i64, T)>::empty());
            assert(with_key(front, k) + with_key(seq![x], k) + with_key(back, k)
                =~= (with_key(front, k) + with_key(back, k)).push(x));
        } else {
            assert(with_key(seq![x], k) =~= Seq::<(i64, T)>::empty());
            assert(with_key(front, k) + with_key(seq![x], k) =~= with_key(front, k));
        }
    }
}

fn place_newest<T>(out: &mut Vec<(i64, T)>, x: (i64, T))
    ensures
        final(out)@ == insert_newest(old(out)@, x),
{
    let k = x.0;
    let mut j: usize = 0;
    while j < out.len() && out[j].0 >= k
        invariant
            j <= out@.len(),
            first_below(out@, k, 0) == first_below(out@, k, j as int),
        decreases out@.len() - j,
    {
        j = j + 1;
    }
    out.insert(j, x);
}

/// The entries sorted newest first (see `newest_first_order`).
pub fn sort_newest_first<T>(items: Vec<(i64, T)>) -> (r: Vec<(i64, T)>)
    ensures
        r@ == newest_first_order(items@),
{
    let ghost all = items@;
    let n = items.len();
    let mut v = items;
    let mut stack: Vec<(i64, T)> = Vec::new();
    while v.len() > 0
        invariant
            v@ == all.take(v@.len() as int),
            n == all.len(),
            stack@.len() + v@.len() == n,
            forall|t: int| 0 <= t < stack@.len() ==> #[trigger] stack@[t] == all[n - 1 - t],
        decreases v@.len(),
    {
        let ghost before = stack@;
        match v.pop() {
            Some(x) => {
                stack.push(x);
                assert forall|t: int| 0 <= t < stack@.len() implies #[trigger] stack@[t] == all[n - 1 - t] by {
                    if t < before.len() {
                        assert(stack@[t] == before[t]);
                    }
                }
            },
            None => {},
        }
    }
    let mut out: Vec<(i64, T)> = Vec::new();
    assert(all.take(0) =~= Seq::<(i64, T)>::empty());
    while stack.len() > 0
        invariant
            n == all.len(),
            stack@.len() <= n,
            forall|t: int| 0 <= t < stack@.len() ==> #[trigger] stack@[t] == all[n - 1 - t],
            out@ == newest_first_order(all.take(n - stack@.len())),
        decreases stack@.len(),
    {
        let ghost done = n - stack@.len();
        match stack.pop() {
            Some(x) => {
                assert(x == all[done]);
                assert(all.take(done + 1).drop_last() =~= all.take(done));
                assert(all.take(done + 1).last() == x);
                place_newest(&mut out, x);
            },
            None => {},
        }
    }
    assert(all.take(n as int) =~= all);
    out
}

/// The second components of `v`, in order.
pub fn values_of<T>(v: Vec<(i64, T)>) -> (r: Vec<T>)
    ensures
        r@ == v@.map_values(|p: (i64, T)| p.1),
{
    let ghost all = v@;
    let n = v.len();
    let mut v = v;
    let mut stack: Vec<T> = Vec::new();
    while v.len() > 0
        invariant
            v@ == all.take(v@.len() as int),
            n == all.len(),
            stack@.len() + v@.len() == n,
            forall|t: int| 0 <= t < stack@.len() ==> #[trigger] stack@[t] == all[n - 1 - t].1,
        decreases v@.len(),
    {
        let ghost before = stack@;
        match v.pop() {
            Some(x) => {
                stack.push(x.1);
                assert forall|t: int| 0 <= t < stack@.len() implies #[trigger] stack@[t] == all[n - 1 - t].1 by {
                    if t < before.len() {
                        assert(stack@[t] == before[t]);
                    }
                }
            },
            None => {},
        }
    }
    let mut out: Vec<T> = Vec::new();
    while stack.len() > 0
        invariant
            n == all.len(),
            stack@.len() <= n,
            forall|t: int| 0 <= t < stack@.len() ==> #[trigger] stack@[t] == all[n - 1 - t].1,
            out@ == all.take(n - stack@.len()).map_values(|p: (i64, T)| p.1),
        decreases stack@.len(),
    {
        let ghost done = n - stack@.len();
        let ghost before = out@;
        match stack.pop() {
            Some(x) => {
                out.push(x);
                assert(out@ =~= all.take(done + 1).map_values(|p: (i64, T)| p.1));
            },
            None => {},
        }
    }
    assert(all.take(n as int) =~= all);
    out
}


/// The last `n` entries of a sequence (all of them when it is shorter).
pub open spec fn keep_last<T>(s: Seq<T>, n: nat) -> Seq<T> {
    if s.len() > n { s.skip(s.len() - n) } else { s }
}

/// Adds an entry to a history that keeps only its last `cap` entries, so that
/// the history never holds more than `cap`.
pub fn push_bounded<T>(history: &mut Vec<T>, entry: T, cap: usize)
    requires
        cap > 0,
    ensures
        final(history)@ == keep_last(old(history)@.push(entry), cap as nat),
        final(history)@.len() <= cap,
{
    history.push(entry);
    if history.len() > cap {
        let at = history.len() - cap;
        let tail = history.split_off(at);
        *history = tail;
    }
}

/// The last `n` entries of a history, oldest first.
pub fn last_entries<T>(history: Vec<T>, n: usize) -> (r: Vec<T>)
    ensures
        r@ == keep_last(history@, n as nat),
{
    let mut history = history;
    if history.len() > n {
        let at = history.len() - n;
        history.split_off(at)
    } else {
        history
    }
}

/// Lexicographic order of texts by code point, which is the order of their
/// UTF-8 bytes (`String`'s `<`).
pub open spec fn text_lt(a: Seq<char>, b: Seq<char>) -> bool
    decreases a.len(),
{
    if a.len() == 0 {
        b.len() > 0
    } else if b.len() == 0 {
        false
    } else if a[0] < b[0] {
        true
    } else if a[0] > b[0] {
        false
    } else {
        text_lt(a.skip(1), b.skip(1))
    }
}

pub fn text_less(a: &[char], b: &[char]) -> (r: bool)
    ensures
        r == text_lt(a@, b@),
{
    let mut i: usize = 0;
    assert(a@.skip(0) =~= a@);
    assert(b@.skip(0) =~= b@);
    while i < a.len() && i < b.len() && a[i] == b[i]
        invariant
            i <= a@.len(),
            i <= b@.len(),
            text_lt(a@, b@) == text_lt(a@.skip(i as int), b@.skip(i as int)),
        decreases a@.len() - i,
    {
        assert(a@.skip(i as int).skip(1) =~= a@.skip(i + 1));
        assert(b@.skip(i as int).skip(1) =~= b@.skip(i + 1));
        i = i + 1;
    }
    if i == a.len() {
        i < b.len()
    } else if i == b.len() {
        false
    } else {
        assert(a@.skip(i as int)[0] == a@[i as int]);
        assert(b@.skip(i as int)[0] == b@[i as int]);
        a[i] < b[i]
    }
}

/// A fusion report found below a project's output directory.
#[derive(Debug, Clone, PartialEq, Eq)]
pub struct FusionCandidate {
    /// The report's path below the output directory, without `.enc`.
    pub logical: String,
    /// Whether the kept file is the encrypted one.
    pub encrypted: bool,
    /// Seconds since the epoch of its last modification (0 when unknown).
    pub modified: i64,
    /// That time as RFC 3339 text, when known.
    pub modified_label: Option<String>,
}

/// Reports are ranked newest first, then by path.
pub open spec fn ranks_before(a: FusionCandidate, b: FusionCandidate) -> bool {
    a.modified > b.modified || (a.modified == b.modified && text_lt(a.logical@, b.logical@))
}

/// The first index at or after `from` whose candidate does not rank before `x`.
pub open spec fn first_not_before(s: Seq<FusionCandidate>, x: FusionCandidate, from: int) -> int
    decreases s.len() - from,
{
    if from >= s.len() {
        s.len() as int
    } else if !ranks_before(s[from], x) {
        from
    } else {
        first_not_before(s, x, from + 1)
    }
}

/// Candidates in ranking order, each placed after those that rank before it.
pub open spec fn ranked(s: Seq<FusionCandidate>) -> Seq<FusionCandidate>
    decreases s.len(),
{
    if s.len() == 0 {
        s
    } else {
        let r = ranked(s.drop_last());
        r.insert(first_not_before(r, s.last(), 0), s.last())
    }
}

/// The index of the candidate kept for a logical path, if any.
pub open spec fn candidate_index(s: Seq<FusionCandidate>, logical: Seq<char>, from: int) -> Option<int>
    decreases s.len() - from,
{
    if from < 0 || from >= s.len() {
        None
    } else if s[from].logical@ == logical {
        Some(from)
    } else {
        candidate_index(s, logical, from + 1)
    }
}

/// Adds a found report: a first file for its logical path is kept; a later
/// file for the same path replaces the kept one when the kept one is
/// encrypted and the later is not, or when the later is newer.
pub open spec fn merged_candidates(s: Seq<FusionCandidate>, c: FusionCandidate) -> Seq<FusionCandidate> {
    match candidate_index(s, c.logical@, 0) {
        Some(i) => if (s[i].encrypted && !c.encrypted) || c.modified > s[i].modified {
            s.update(i, c)
        } else {
            s
        },
        None => s.push(c),
    }
}

pub fn merge_candidate(cands: &mut Vec<FusionCandidate>, c: FusionCandidate)
    ensures
        final(cands)@ == merged_candidates(old(cands)@, c),
{
    let target = crate::text::chars_of(c.logical.as_str());
    let mut i: usize = 0;
    while i < cands.len()
        invariant
            i <= cands@.len(),
            cands@ == old(cands)@,
            target@ == c.logical@,
            candidate_index(cands@, c.logical@, 0) == candidate_index(cands@, c.logical@, i as int),
        decreases cands@.len() - i,
    {
        let here = crate::text::chars_of(cands[i].logical.as_str());
        if crate::text::chars_eq(here.as_slice(), target.as_slice()) {
            let kept = &cands[i];
            if (kept.encrypted && !c.encrypted) || c.modified > kept.modified {
                cands.set(i, c);
            }
            return;
        }
        i = i + 1;
    }
    cands.push(c);
}

fn ranks_before_exec(a: &FusionCandidate, x: &FusionCandidate) -> (r: bool)
    ensures
        r == ranks_before(*a, *x),
{
    if a.modified > x.modified {
        return true;
    }
    if a.modified != x.modified {
        return false;
    }
    let al = crate::text::chars_of(a.logical.as_str());
    let xl = crate::text::chars_of(x.logical.as_str());
    text_less(al.as_slice(), xl.as_slice())
}

fn place_ranked(out: &mut Vec<FusionCandidate>, x: FusionCandidate)
    ensures
        final(out)@ == old(out)@.insert(first_not_before(old(out)@, x, 0), x),
{
    let mut j: usize = 0;
    while j < out.len() && ranks_before_exec(&out[j], &x)
        invariant
            j <= out@.len(),
            out@ == old(out)@,
            first_not_before(out@, x, 0) == first_not_before(out@, x, j as int),
        decreases out@.len() - j,
    {
        j = j + 1;
    }
    out.insert(j, x);
}

/// The candidates in ranking order, cut to `limit`; also whether any was left
/// out or the walk stopped early (after 20000 files).
pub fn rank_candidates(cands: Vec<FusionCandidate>, limit: usize, visited_files: usize) -> (r: (Vec<FusionCandidate>, bool))
    ensures
        r.0@ == ranked(cands@).take(if cands@.len() < limit { cands@.len() as int } else { limit as int }),
        r.1 == (cands@.len() > limit || visited_files > 20000),
{
    let ghost all = cands@;
    let n = cands.len();
    let truncated = n > limit || visited_files > 20000;
    let mut v = cands;
    let mut stack: Vec<FusionCandidate> = Vec::new();
    while v.len() > 0
        invariant
            v@ == all.take(v@.len() as int),
            n == all.len(),
            stack@.len() + v@.len() == n,
            forall|t: int| 0 <= t < stack@.len() ==> #[trigger] stack@[t] == all[n - 1 - t],
        decreases v@.len(),
    {
        let ghost before = stack@;
        match v.pop() {
            Some(x) => {
                stack.push(x);
                assert forall|t: int| 0 <= t < stack@.len() implies #[trigger] stack@[t] == all[n - 1 - t] by {
                    if t < before.len() {
                        assert(stack@[t] == before[t]);
                    }
                }
            },
            None => {},
        }
    }
    let mut out: Vec<FusionCandidate> = Vec::new();
    assert(all.take(0) =~= Seq::<FusionCandidate>::empty());
    while stack.len() > 0
        invariant
            n == all.len(),
            stack@.len() <= n,
            forall|t: int| 0 <= t < stack@.len() ==> #[trigger] stack@[t] == all[n - 1 - t],
            out@ == ranked(all.take(n - stack@.len())),
        decreases stack@.len(),
    {
        let ghost done = n - stack@.len();
        match stack.pop() {
            Some(x) => {
                assert(x == all[done]);
                assert(all.take(done + 1).drop_last() =~= all.take(done));
                assert(all.take(done + 1).last() == x);
                place_ranked(&mut out, x);
            },
            None => {},
        }
    }
    assert(all.take(n as int) =~= all);
    proof { ranked_reports_are_in_order(all); }
    out.truncate(limit);
    assert(out@ =~= ranked(all).take(if all.len() < limit { all.len() as int } else { limit as int }));
    (out, truncated)
}

proof fn lemma_text_lt_asymmetric(a: Seq<char>, b: Seq<char>)
    requires
        text_lt(a, b),
    ensures
        !text_lt(b, a),
    decreases a.len(),
{
    if a.len() > 0 && b.len() > 0 && a[0] == b[0] {
        lemma_text_lt_asymmetric(a.skip(1), b.skip(1));
    }
}

proof fn lemma_text_lt_transitive(a: Seq<char>, b: Seq<char>, c: Seq<char>)
    requires
        text_lt(a, b),
        text_lt(b, c),
    ensures
        text_lt(a, c),
    decreases a.len(),
{
    if a.len() > 0 && b.len() > 0 && c.len() > 0 && a[0] == b[0] && b[0] == c[0] {
        lemma_text_lt_transitive(a.skip(1), b.skip(1), c.skip(1));
    }
}

proof fn lemma_text_lt_total(a: Seq<char>, b: Seq<char>)
    requires
        a != b,
    ensures
        text_lt(a, b) || text_lt(b, a),
    decreases a.len(),
{
    if a.len() > 0 && b.len() > 0 && a[0] == b[0] {
        if a.skip(1) == b.skip(1) {
            assert(a =~= seq![a[0]] + a.skip(1));
            assert(b =~= seq![b[0]] + b.skip(1));
        }
        lemma_text_lt_total(a.skip(1), b.skip(1));
    } else if a.len() == 0 && b.len() == 0 {
        assert(a =~= b);
    }
}

/// Ranking order is asymmetric: two reports never each rank before the other.
proof fn lemma_ranks_before_asymmetric(a: FusionCandidate, b: FusionCandidate)
    requires
        ranks_before(a, b),
    ensures
        !ranks_before(b, a),
{
    if a.modified == b.modified {
        lemma_text_lt_asymmetric(a.logical@, b.logical@);
    }
}

/// Not ranking before is transitive.
proof fn lemma_not_before_transitive(a: FusionCandidate, b: FusionCandidate, c: FusionCandidate)
    requires
        !ranks_before(a, b),
        !ranks_before(b, c),
    ensures
        !ranks_before(a, c),
{
    if a.modified == c.modified && text_lt(a.logical@, c.logical@) {
        assert(a.modified == b.modified);
        if a.logical@ != b.logical@ {
            lemma_text_lt_total(a.logical@, b.logical@);
        }
        if b.logical@ != c.logical@ {
            lemma_text_lt_total(b.logical@, c.logical@);
        }
        if a.logical@ == b.logical@ {
            lemma_text_lt_asymmetric(a.logical@, c.logical@);
        } else if b.logical@ == c.logical@ {
            lemma_text_lt_asymmetric(a.logical@, c.logical@);
        } else {
            lemma_text_lt_transitive(c.logical@, b.logical@, a.logical@);
            lemma_text_lt_asymmetric(a.logical@, c.logical@);
        }
    }
}

proof fn lemma_first_not_before_bounds(s: Seq<FusionCandidate>, x: FusionCandidate, from: int)
    requires
        0 <= from <= s.len(),
    ensures
        from <= first_not_before(s, x, from) <= s.len(),
        forall|t: int| from <= t < first_not_before(s, x, from) ==> ranks_before(#[trigger] s[t], x),
        first_not_before(s, x, from) < s.len() ==> !ranks_before(s[first_not_before(s, x, from)], x),
    decreases s.len() - from,
{
    if from < s.len() && ranks_before(s[from], x) {
        lemma_first_not_before_bounds(s, x, from + 1);
    }
}

/// No later candidate ranks before an earlier one.
pub open spec fn in_ranking_order(s: Seq<FusionCandidate>) -> bool {
    forall|i: int, j: int| 0 <= i < j < s.len() ==> !ranks_before(#[trigger] s[j], #[trigger] s[i])
}

/// Fusion reports are listed newest first, ties by path: in the ranked list no
/// report comes after one that it ranks before, and ranking keeps every
/// candidate exactly as often as it was found.
pub proof fn ranked_reports_are_in_order(s: Seq<FusionCandidate>)
    ensures
        in_ranking_order(ranked(s)),
        ranked(s).to_multiset() =~= s.to_multiset(),
        ranked(s).len() == s.len(),
    decreases s.len(),
{
    broadcast use vstd::seq_lib::group_to_multiset_ensures;
    if s.len() > 0 {
        let rest = ranked(s.drop_last());
        ranked_reports_are_in_order(s.drop_last());
        let x = s.last();
        let p = first_not_before(rest, x, 0);
        lemma_first_not_before_bounds(rest, x, 0);
        let r = rest.insert(p, x);
        assert forall|i: int, j: int| 0 <= i < j < r.len() implies !ranks_before(#[trigger] r[j], #[trigger] r[i]) by {
            if j < p {
            } else if i < p && j == p {
                lemma_ranks_before_asymmetric(rest[i], x);
            } else if i < p {
                assert(r[j] == rest[j - 1]);
            } else if i == p {
                assert(r[j] == rest[j - 1]);
                if j - 1 > p {
                    assert(!ranks_before(rest[j - 1], rest[p]));
                    lemma_not_before_transitive(rest[j - 1], rest[p], x);
                }
            } else {
                assert(r[i] == rest[i - 1]);
                assert(r[j] == rest[j - 1]);
            }
        }
        assert(r.remove(p) =~= rest);
        assert(r.to_multiset().remove(x) =~= rest.to_multiset());
        assert(s.drop_last().push(x) =~= s);
        assert(r.to_multiset() =~= rest.to_multiset().insert(x));
    }
}

/// No two candidates share a logical path.
pub open spec fn one_per_path(s: Seq<FusionCandidate>) -> bool {
    forall|i: int, j: int| 0 <= i < j < s.len() ==> (#[trigger] s[i]).logical@ != (#[trigger] s[j]).logical@
}

proof fn lemma_candidate_index(s: Seq<FusionCandidate>, logical: Seq<char>, from: int)
    requires
        0 <= from <= s.len(),
    ensures
        match candidate_index(s, logical, from) {
            Some(i) => from <= i < s.len() && s[i].logical@ == logical,
            None => forall|t: int| from <= t < s.len() ==> (#[trigger] s[t]).logical@ != logical,
        },
    decreases s.len() - from,
{
    if from < s.len() && s[from].logical@ != logical {
        lemma_candidate_index(s, logical, from + 1);
    }
}

/// Reports are kept one per logical path: merging a found report into
/// candidates that hold each path once keeps each path once, and leaves a
/// candidate for the found report's path.
pub proof fn merge_keeps_one_candidate_per_path(s: Seq<FusionCandidate>, c: FusionCandidate)
    requires
        one_per_path(s),
    ensures
        one_per_path(merged_candidates(s, c)),
        exists|i: int| 0 <= i < merged_candidates(s, c).len() && (#[trigger] merged_candidates(s, c)[i]).logical@ == c.logical@,
{
    lemma_candidate_index(s, c.logical@, 0);
    let m = merged_candidates(s, c);
    match candidate_index(s, c.logical@, 0) {
        Some(k) => {
            assert(m[k].logical@ == c.logical@);
        },
        None => {
            assert(m[s.len() as int].logical@ == c.logical@);
        },
    }
}
} // verus!
