//! The run state machine: the life of one training run.
//!
//! Which moves are legal is decided by [`RunState::can_transition_to`]; the
//! supervisor walks a legal path with [`find_state_path`] when a kernel event
//! skips intermediate states.

use vstd::prelude::*;

verus! {

/// State of a training run.
#[derive(Debug, Clone, Copy, PartialEq, Eq, Hash, Structural)]
pub enum RunState {
    /// Created: stored, not queued yet.
    Created,
    /// Waiting in the queue.
    Queued,
    /// Preparing: environment, dataset and cache checks.
    Preparing,
    /// Training.
    Running,
    /// Paused.
    Paused,
    /// Producing sample images (training goes on).
    Sampling,
    /// Writing a checkpoint.
    Saving,
    /// Finished successfully.
    Done,
    /// Failed (can be retried as a new run).
    Failed,
    /// Canceled by the user.
    Canceled,
}

/// Number of run states.
pub const NUM_STATES: usize = 10;

/// Position of a state in declaration order.
pub open spec fn state_index(s: RunState) -> int {
    match s {
        RunState::Created => 0,
        RunState::Queued => 1,
        RunState::Preparing => 2,
        RunState::Running => 3,
        RunState::Paused => 4,
        RunState::Sampling => 5,
        RunState::Saving => 6,
        RunState::Done => 7,
        RunState::Failed => 8,
        RunState::Canceled => 9,
    }
}

/// The state at a position in declaration order.
pub open spec fn state_at(i: int) -> RunState {
    if i == 0 {
        RunState::Created
    } else if i == 1 {
        RunState::Queued
    } else if i == 2 {
        RunState::Preparing
    } else if i == 3 {
        RunState::Running
    } else if i == 4 {
        RunState::Paused
    } else if i == 5 {
        RunState::Sampling
    } else if i == 6 {
        RunState::Saving
    } else if i == 7 {
        RunState::Done
    } else if i == 8 {
        RunState::Failed
    } else {
        RunState::Canceled
    }
}

/// The legal successors of a state, in the order the machine lists them.
pub open spec fn legal_seq(s: RunState) -> Seq<RunState> {
    match s {
        RunState::Created => seq![RunState::Queued, RunState::Failed, RunState::Canceled],
        RunState::Queued => seq![RunState::Preparing, RunState::Canceled],
        RunState::Preparing => seq![RunState::Running, RunState::Failed, RunState::Canceled],
        RunState::Running => seq![
            RunState::Paused,
            RunState::Sampling,
            RunState::Saving,
            RunState::Done,
            RunState::Failed,
            RunState::Canceled,
        ],
        RunState::Paused => seq![RunState::Running, RunState::Canceled],
        RunState::Sampling => seq![
            RunState::Running,
            RunState::Saving,
            RunState::Done,
            RunState::Failed,
            RunState::Canceled,
        ],
        RunState::Saving => seq![
            RunState::Running,
            RunState::Done,
            RunState::Failed,
            RunState::Canceled,
        ],
        RunState::Done | RunState::Failed | RunState::Canceled => seq![],
    }
}

/// One legal move of the state machine.
pub open spec fn can_step(from: RunState, to: RunState) -> bool {
    legal_seq(from).contains(to)
}

/// A terminal state accepts no further move.
pub open spec fn terminal(s: RunState) -> bool {
    s == RunState::Done || s == RunState::Failed || s == RunState::Canceled
}

/// Storage name (snake case).
pub open spec fn state_name(s: RunState) -> Seq<char> {
    match s {
        RunState::Created => "created"@,
        RunState::Queued => "queued"@,
        RunState::Preparing => "preparing"@,
        RunState::Running => "running"@,
        RunState::Paused => "paused"@,
        RunState::Sampling => "sampling"@,
        RunState::Saving => "saving"@,
        RunState::Done => "done"@,
        RunState::Failed => "failed"@,
        RunState::Canceled => "canceled"@,
    }
}

/// Display label.
pub open spec fn state_label(s: RunState) -> Seq<char> {
    match s {
        RunState::Created => "已创建"@,
        RunState::Queued => "排队中"@,
        RunState::Preparing => "准备中"@,
        RunState::Running => "炼丹中"@,
        RunState::Paused => "文火"@,
        RunState::Sampling => "采样中"@,
        RunState::Saving => "保存中"@,
        RunState::Done => "出炉"@,
        RunState::Failed => "炸炉"@,
        RunState::Canceled => "已取消"@,
    }
}

/// `p` is a walk of legal moves.
pub open spec fn is_walk(p: Seq<RunState>) -> bool {
    forall|i: int| 0 <= i < p.len() - 1 ==> can_step(#[trigger] p[i], p[i + 1])
}

/// `p` is a walk of legal moves from `from` to `to` with at least one move.
pub open spec fn is_walk_between(p: Seq<RunState>, from: RunState, to: RunState) -> bool {
    &&& p.len() >= 2
    &&& p[0] == from
    &&& p[p.len() - 1] == to
    &&& is_walk(p)
}

/// `to` can be reached from `from` by one or more legal moves.
pub open spec fn reachable(from: RunState, to: RunState) -> bool {
    exists|p: Seq<RunState>| is_walk_between(p, from, to)
}

impl RunState {
    /// Position in declaration order.
    pub fn index(&self) -> (i: usize)
        ensures
            i == state_index(*self),
            i < NUM_STATES,
    {
        match self {
            RunState::Created => 0,
            RunState::Queued => 1,
            RunState::Preparing => 2,
            RunState::Running => 3,
            RunState::Paused => 4,
            RunState::Sampling => 5,
            RunState::Saving => 6,
            RunState::Done => 7,
            RunState::Failed => 8,
            RunState::Canceled => 9,
        }
    }

    /// The state at a position in declaration order.
    pub fn from_index(i: usize) -> (s: RunState)
        requires
            i < NUM_STATES,
        ensures
            s == state_at(i as int),
            state_index(s) == i,
    {
        if i == 0 {
            RunState::Created
        } else if i == 1 {
            RunState::Queued
        } else if i == 2 {
            RunState::Preparing
        } else if i == 3 {
            RunState::Running
        } else if i == 4 {
            RunState::Paused
        } else if i == 5 {
            RunState::Sampling
        } else if i == 6 {
            RunState::Saving
        } else if i == 7 {
            RunState::Done
        } else if i == 8 {
            RunState::Failed
        } else {
            RunState::Canceled
        }
    }

    /// Storage name (snake case, as stored and queried).
    pub fn as_str(&self) -> (r: &'static str)
        ensures
            r@ == state_name(*self),
    {
        match self {
            RunState::Created => "created",
            RunState::Queued => "queued",
            RunState::Preparing => "preparing",
            RunState::Running => "running",
            RunState::Paused => "paused",
            RunState::Sampling => "sampling",
            RunState::Saving => "saving",
            RunState::Done => "done",
            RunState::Failed => "failed",
            RunState::Canceled => "canceled",
        }
    }

    /// Display label.
    pub fn label(&self) -> (r: &'static str)
        ensures
            r@ == state_label(*self),
    {
        match self {
            RunState::Created => "已创建",
            RunState::Queued => "排队中",
            RunState::Preparing => "准备中",
            RunState::Running => "炼丹中",
            RunState::Paused => "文火",
            RunState::Sampling => "采样中",
            RunState::Saving => "保存中",
            RunState::Done => "出炉",
            RunState::Failed => "炸炉",
            RunState::Canceled => "已取消",
        }
    }

    /// Whether the machine may move from `self` to `to`.
    pub fn can_transition_to(&self, to: RunState) -> (r: bool)
        ensures
            r == can_step(*self, to),
    {
        let legal = self.legal_transitions();
        let mut i: usize = 0;
        while i < legal.len()
            invariant
                legal@ == legal_seq(*self),
                i <= legal.len(),
                forall|k: int| 0 <= k < i ==> legal@[k] != to,
            decreases legal.len() - i,
        {
            if legal[i] == to {
                return true;
            }
            i = i + 1;
        }
        false
    }

    /// All states the machine may move to from `self`.
    pub fn legal_transitions(&self) -> (v: Vec<RunState>)
        ensures
            v@ == legal_seq(*self),
    {
        match self {
            RunState::Created => vec![RunState::Queued, RunState::Failed, RunState::Canceled],
            RunState::Queued => vec![RunState::Preparing, RunState::Canceled],
            RunState::Preparing => vec![RunState::Running, RunState::Failed, RunState::Canceled],
            RunState::Running => vec![
                RunState::Paused,
                RunState::Sampling,
                RunState::Saving,
                RunState::Done,
                RunState::Failed,
                RunState::Canceled,
            ],
            RunState::Paused => vec![RunState::Running, RunState::Canceled],
            RunState::Sampling => vec![
                RunState::Running,
                RunState::Saving,
                RunState::Done,
                RunState::Failed,
                RunState::Canceled,
            ],
            RunState::Saving => vec![
                RunState::Running,
                RunState::Done,
                RunState::Failed,
                RunState::Canceled,
            ],
            RunState::Done | RunState::Failed | RunState::Canceled => vec![],
        }
    }

    /// Whether the state is terminal (no further move).
    pub fn is_terminal(&self) -> (r: bool)
        ensures
            r == terminal(*self),
    {
        match self {
            RunState::Done | RunState::Failed | RunState::Canceled => true,
            _ => false,
        }
    }
}

/// `p` is a walk of legal moves from `from` to `v` of at most `k` moves.
spec fn short_walk(p: Seq<RunState>, from: RunState, v: RunState, k: nat) -> bool {
    &&& 1 <= p.len() <= k + 1
    &&& p[0] == from
    &&& p[p.len() - 1] == v
    &&& is_walk(p)
}

/// `v` can be reached from `from` in at most `k` legal moves.
spec fn within(from: RunState, v: RunState, k: nat) -> bool {
    exists|p: Seq<RunState>| #[trigger] short_walk(p, from, v, k)
}

proof fn lemma_state_index_roundtrip(s: RunState)
    ensures
        state_at(state_index(s)) == s,
        0 <= state_index(s) < 10,
{
}

proof fn lemma_state_at_roundtrip(i: int)
    requires
        0 <= i < 10,
    ensures
        state_index(state_at(i)) == i,
{
}

/// No move reaches exactly the start.
proof fn lemma_within_zero(from: RunState, v: RunState)
    ensures
        within(from, v, 0) <==> v == from,
{
    if v == from {
        assert(short_walk(seq![from], from, v, 0));
    }
}

/// More moves reach at least as much.
proof fn lemma_within_mono(from: RunState, v: RunState, a: nat, b: nat)
    requires
        a <= b,
        within(from, v, a),
    ensures
        within(from, v, b),
{
    let p = choose|p: Seq<RunState>| #[trigger] short_walk(p, from, v, a);
    assert(short_walk(p, from, v, b));
}

/// A walk of `m` moves reaches its end within `m` moves.
proof fn lemma_walk_within(p: Seq<RunState>)
    requires
        is_walk(p),
        p.len() >= 1,
    ensures
        within(p[0], p[p.len() - 1], (p.len() - 1) as nat),
{
    assert(short_walk(p, p[0], p[p.len() - 1], (p.len() - 1) as nat));
}

/// One more move from a state reached within `k` moves.
proof fn lemma_within_step(from: RunState, u: RunState, v: RunState, k: nat)
    requires
        can_step(u, v),
        within(from, u, k),
    ensures
        within(from, v, k + 1),
{
    let p = choose|p: Seq<RunState>| #[trigger] short_walk(p, from, u, k);
    let q = p.push(v);
    assert forall|i: int| 0 <= i < q.len() - 1 implies can_step(#[trigger] q[i], q[i + 1]) by {
        if i < p.len() - 1 {
            assert(q[i] == p[i] && q[i + 1] == p[i + 1]);
        } else {
            assert(q[i] == u && q[i + 1] == v);
        }
    }
    assert(short_walk(q, from, v, k + 1));
}

/// A state other than the start, reached within `k + 1` moves, has a
/// predecessor reached within `k` moves.
proof fn lemma_within_pred(from: RunState, v: RunState, k: nat) -> (u: RunState)
    requires
        within(from, v, k + 1),
        v != from,
    ensures
        can_step(u, v),
        within(from, u, k),
{
    let p = choose|p: Seq<RunState>| #[trigger] short_walk(p, from, v, k + 1);
    assert(p.len() >= 2);
    let q = p.drop_last();
    assert forall|i: int| 0 <= i < q.len() - 1 implies can_step(#[trigger] q[i], q[i + 1]) by {
        assert(q[i] == p[i] && q[i + 1] == p[i + 1]);
    }
    let u = q[q.len() - 1];
    assert(u == p[p.len() - 2]);
    assert(can_step(p[p.len() - 2], p[p.len() - 1]));
    assert(short_walk(q, from, u, k));
    u
}

/// Once one more move reaches nothing new, no number of moves does.
proof fn lemma_within_stable(from: RunState, k: nat, m: nat, v: RunState)
    requires
        forall|w: RunState| #[trigger] within(from, w, k + 1) ==> within(from, w, k),
        within(from, v, m),
    ensures
        within(from, v, k),
    decreases m,
{
    if m <= k {
        lemma_within_mono(from, v, m, k);
    } else if v == from {
        lemma_within_zero(from, v);
        lemma_within_mono(from, v, 0, k);
    } else {
        let u = lemma_within_pred(from, v, (m - 1) as nat);
        lemma_within_stable(from, k, (m - 1) as nat, u);
        lemma_within_step(from, u, v, k);
    }
}

/// Marker of a state not reached yet.
const UNREACHED: usize = 10;

/// Number of states not reached yet.
spec fn count_free(s: Seq<usize>) -> nat
    decreases s.len(),
{
    if s.len() == 0 {
        0
    } else {
        count_free(s.drop_last()) + if s.last() == UNREACHED {
            1nat
        } else {
            0nat
        }
    }
}

/// Reaching more states leaves fewer free; reaching a new one, strictly fewer.
proof fn lemma_count_free_shrinks(a: Seq<usize>, b: Seq<usize>)
    requires
        a.len() == b.len(),
        forall|i: int| 0 <= i < a.len() && a[i] != UNREACHED ==> #[trigger] b[i] != UNREACHED,
    ensures
        count_free(b) <= count_free(a),
        (exists|i: int| 0 <= i < a.len() && a[i] == UNREACHED && #[trigger] b[i] != UNREACHED) ==> count_free(b)
            < count_free(a),
    decreases a.len(),
{
    if a.len() > 0 {
        let a2 = a.drop_last();
        let b2 = b.drop_last();
        assert forall|i: int| 0 <= i < a2.len() && a2[i] != UNREACHED implies #[trigger] b2[i] != UNREACHED by {
            assert(a2[i] == a[i] && b2[i] == b[i]);
        }
        lemma_count_free_shrinks(a2, b2);
        if exists|i: int| 0 <= i < a.len() && a[i] == UNREACHED && #[trigger] b[i] != UNREACHED {
            let i = choose|i: int| 0 <= i < a.len() && a[i] == UNREACHED && #[trigger] b[i] != UNREACHED;
            if i < a.len() - 1 {
                assert(a2[i] == a[i] && b2[i] == b[i]);
            }
        }
    }
}

/// A state not reached yet is counted.
proof fn lemma_count_free_pos(s: Seq<usize>, i: int)
    requires
        0 <= i < s.len(),
        s[i] == UNREACHED,
    ensures
        count_free(s) >= 1,
    decreases s.len(),
{
    if i < s.len() - 1 {
        assert(s.drop_last()[i] == s[i]);
        lemma_count_free_pos(s.drop_last(), i);
    }
}

proof fn lemma_count_free_all(n: nat)
    ensures
        count_free(Seq::new(n, |i: int| UNREACHED)) == n,
    decreases n,
{
    if n > 0 {
        assert(Seq::new(n, |i: int| UNREACHED).drop_last() =~= Seq::new((n - 1) as nat, |i: int| UNREACHED));
        lemma_count_free_all((n - 1) as nat);
    }
}

proof fn lemma_count_free_update(s: Seq<usize>, i: int, x: usize)
    requires
        0 <= i < s.len(),
        s[i] == UNREACHED,
        x != UNREACHED,
    ensures
        count_free(s.update(i, x)) + 1 == count_free(s),
    decreases s.len(),
{
    let t = s.update(i, x);
    if i == s.len() - 1 {
        assert(t.drop_last() =~= s.drop_last());
    } else {
        assert(t.drop_last() =~= s.drop_last().update(i, x));
        lemma_count_free_update(s.drop_last(), i, x);
    }
}

/// The fewest-moves table after `k` rounds: a state is reached exactly when
/// `k` moves reach it, and then at the fewest moves that do.
spec fn dist_ok(from: RunState, dist: Seq<usize>, k: nat) -> bool {
    &&& dist.len() == 10
    &&& forall|v: int| 0 <= v < 10 ==> (#[trigger] dist[v] != UNREACHED <==> within(from, state_at(v), k))
    &&& forall|v: int|
        0 <= v < 10 && #[trigger] dist[v] != UNREACHED ==> {
            &&& dist[v] <= k
            &&& within(from, state_at(v), dist[v] as nat)
            &&& (dist[v] == 0 || !within(from, state_at(v), (dist[v] - 1) as nat))
        }
}

/// The fewest moves that reach `u`, when `u` is reached.
proof fn lemma_dist_exact(from: RunState, dist: Seq<usize>, k: nat, u: int, j: nat)
    requires
        dist_ok(from, dist, k),
        0 <= u < 10,
        j <= k,
        within(from, state_at(u), j),
    ensures
        dist[u] != UNREACHED,
        dist[u] <= j,
{
    lemma_within_mono(from, state_at(u), j, k);
    if dist[u] > j {
        lemma_within_mono(from, state_at(u), j, (dist[u] - 1) as nat);
    }
}

/// One round: the states one more move reaches.
fn next_round(from: RunState, dist: &Vec<usize>, k: usize) -> (next: Vec<usize>)
    requires
        dist_ok(from, dist@, k as nat),
        k + 1 < UNREACHED,
    ensures
        dist_ok(from, next@, (k + 1) as nat),
        forall|i: int| 0 <= i < 10 && dist@[i] != UNREACHED ==> #[trigger] next@[i] == dist@[i],
{
    let mut next: Vec<usize> = Vec::new();
    let mut v: usize = 0;
    while v < 10
        invariant
            dist_ok(from, dist@, k as nat),
            k + 1 < UNREACHED,
            v <= 10,
            next@.len() == v,
            forall|i: int| 0 <= i < v && dist@[i] != UNREACHED ==> #[trigger] next@[i] == dist@[i],
            forall|i: int|
                0 <= i < v && dist@[i] == UNREACHED ==> (#[trigger] next@[i] != UNREACHED <==> within(
                    from,
                    state_at(i),
                    (k + 1) as nat,
                )),
            forall|i: int| 0 <= i < v && dist@[i] == UNREACHED ==> (#[trigger] next@[i] == UNREACHED || next@[i]
                == k + 1),
        decreases 10 - v,
    {
        if dist[v] != UNREACHED {
            next.push(dist[v]);
        } else {
            let sv = RunState::from_index(v);
            let mut found = false;
            let mut u: usize = 0;
            while u < 10
                invariant
                    dist_ok(from, dist@, k as nat),
                    v < 10,
                    sv == state_at(v as int),
                    u <= 10,
                    found <==> exists|w: int| 0 <= w < u && #[trigger] dist@[w] != UNREACHED && can_step(state_at(w), sv),
                decreases 10 - u,
            {
                if dist[u] != UNREACHED && RunState::from_index(u).can_transition_to(sv) {
                    found = true;
                }
                u = u + 1;
            }
            proof {
                assert(sv != from) by {
                    if sv == from {
                        lemma_within_zero(from, sv);
                        lemma_within_mono(from, sv, 0, k as nat);
                    }
                }
                let k1: nat = (k + 1) as nat;
                assert(k1 == k as nat + 1);
                if found {
                    let w = choose|w: int| 0 <= w < 10 && #[trigger] dist@[w] != UNREACHED && can_step(state_at(w), sv);
                    lemma_within_step(from, state_at(w), sv, k as nat);
                    assert(within(from, sv, k1));
                }
                if within(from, sv, k1) {
                    let us = lemma_within_pred(from, sv, k as nat);
                    lemma_state_index_roundtrip(us);
                    let w = state_index(us);
                    assert(dist@[w] != UNREACHED && can_step(state_at(w), sv));
                }
                assert(found <==> within(from, sv, k1));
            }
            let val: usize = if found {
                k + 1
            } else {
                UNREACHED
            };
            proof {
                assert(val != UNREACHED <==> within(from, state_at(v as int), (k + 1) as nat));
            }
            next.push(val);
        }
        v = v + 1;
    }
    proof {
        assert forall|v: int| 0 <= v < 10 implies (#[trigger] next@[v] != UNREACHED <==> within(
            from,
            state_at(v),
            (k + 1) as nat,
        )) by {
            if dist@[v] != UNREACHED {
                lemma_within_mono(from, state_at(v), k as nat, (k + 1) as nat);
            }
        }
        assert forall|v: int|
            0 <= v < 10 && #[trigger] next@[v] != UNREACHED implies {
                &&& next@[v] <= k + 1
                &&& within(from, state_at(v), next@[v] as nat)
                &&& (next@[v] == 0 || !within(from, state_at(v), (next@[v] - 1) as nat))
            } by {
            if dist@[v] == UNREACHED {
                assert(next@[v] == k + 1);
            }
        }
    }
    next
}

/// The fewest-moves walk from `from` to `to`: following the table back from
/// `to`, each step to a state one move closer.
fn walk_back(from: RunState, to: RunState, dist: &Vec<usize>, k: usize) -> (path: Vec<RunState>)
    requires
        dist_ok(from, dist@, k as nat),
        dist@[state_index(to)] != UNREACHED,
        dist@[state_index(to)] >= 1,
        k <= 10,
    ensures
        is_walk_between(path@, from, to),
        path@.len() == dist@[state_index(to)] + 1,
{
    proof {
        lemma_state_index_roundtrip(to);
    }
    let d = dist[to.index()];
    let mut rev: Vec<RunState> = Vec::new();
    rev.push(to);
    let mut cur = to;
    let mut j: usize = d;
    while j > 0
        invariant
            dist_ok(from, dist@, k as nat),
            1 <= d < 10,
            d == dist@[state_index(to)],
            j <= d,
            dist@[state_index(cur)] == j,
            rev@.len() == d - j + 1,
            rev@[0] == to,
            rev@[rev@.len() - 1] == cur,
            forall|i: int| 0 <= i < rev@.len() - 1 ==> can_step(#[trigger] rev@[i + 1], rev@[i]),
        decreases j,
    {
        let ci = cur.index();
        proof {
            lemma_state_index_roundtrip(cur);
            assert(within(from, cur, j as nat));
            assert(!within(from, cur, (j - 1) as nat));
            assert(cur != from) by {
                if cur == from {
                    lemma_within_zero(from, cur);
                    lemma_within_mono(from, cur, 0, (j - 1) as nat);
                }
            }
            let us = lemma_within_pred(from, cur, (j - 1) as nat);
            lemma_state_index_roundtrip(us);
            lemma_dist_exact(from, dist@, k as nat, state_index(us), (j - 1) as nat);
            if dist@[state_index(us)] < j - 1 {
                let du = dist@[state_index(us)] as nat;
                lemma_within_step(from, us, cur, du);
                lemma_within_mono(from, cur, du + 1, (j - 1) as nat);
            }
            assert(dist@[state_index(us)] == j - 1 && can_step(state_at(state_index(us)), cur));
        }
        let mut u: usize = 0;
        while u < 10 && !(dist[u] == j - 1 && RunState::from_index(u).can_transition_to(cur))
            invariant
                dist_ok(from, dist@, k as nat),
                1 <= j,
                u <= 10,
                exists|w: int| 0 <= w < 10 && dist@[w] == j - 1 && can_step(state_at(w), cur),
                forall|w: int| 0 <= w < u ==> !(#[trigger] dist@[w] == j - 1 && can_step(state_at(w), cur)),
            decreases 10 - u,
        {
            u = u + 1;
        }
        proof {
            if u >= 10 {
                let w = choose|w: int| 0 <= w < 10 && dist@[w] == j - 1 && can_step(state_at(w), cur);
                assert(!(dist@[w] == j - 1 && can_step(state_at(w), cur)));
            }
        }
        let prev_state = RunState::from_index(u);
        let ghost old_rev = rev@;
        rev.push(prev_state);
        proof {
            assert forall|i: int| 0 <= i < rev@.len() - 1 implies can_step(#[trigger] rev@[i + 1], rev@[i]) by {
                if i < old_rev.len() - 1 {
                    assert(rev@[i] == old_rev[i] && rev@[i + 1] == old_rev[i + 1]);
                } else {
                    assert(rev@[i] == cur);
                }
            }
        }
        cur = prev_state;
        j = j - 1;
    }
    proof {
        lemma_state_index_roundtrip(cur);
        assert(within(from, cur, 0));
        lemma_within_zero(from, cur);
    }
    let mut path: Vec<RunState> = Vec::new();
    let n = rev.len();
    let mut i: usize = 0;
    while i < n
        invariant
            n == rev@.len(),
            i <= n,
            path@.len() == i,
            forall|q: int| 0 <= q < i ==> #[trigger] path@[q] == rev@[n - 1 - q],
        decreases n - i,
    {
        path.push(rev[n - 1 - i]);
        i = i + 1;
    }
    proof {
        assert forall|q: int| 0 <= q < path@.len() - 1 implies can_step(#[trigger] path@[q], path@[q + 1]) by {
            let r = n - 2 - q;
            assert(path@[q] == rev@[r + 1]);
            assert(path@[q + 1] == rev@[r]);
            assert(can_step(rev@[r + 1], rev@[r]));
        }
    }
    path
}

/// The shortest legal walk from `from` to `to` (rounds of one more move each,
/// then back along the table); empty when `from == to` or when `to` cannot be
/// reached. The walk starts with `from`; in this machine the shortest walk
/// between two states is unique.
pub fn find_state_path(from: RunState, to: RunState) -> (path: Vec<RunState>)
    ensures
        path@.len() > 0 <==> (from != to && reachable(from, to)),
        path@.len() > 0 ==> is_walk_between(path@, from, to),
        path@.len() > 0 ==> forall|p: Seq<RunState>| #[trigger] is_walk_between(p, from, to) ==> path@.len() <= p.len(),
{
    if from == to {
        return Vec::new();
    }
    let fi = from.index();
    let ti = to.index();
    let mut dist: Vec<usize> = vec![UNREACHED; 10];
    proof {
        assert(dist@ =~= Seq::new(10, |i: int| UNREACHED));
        lemma_count_free_all(10);
        lemma_count_free_update(dist@, fi as int, 0);
    }
    dist.set(fi, 0);
    let mut k: usize = 0;
    proof {
        lemma_state_index_roundtrip(from);
        lemma_state_index_roundtrip(to);
        assert forall|v: int| 0 <= v < 10 implies (#[trigger] dist@[v] != UNREACHED <==> within(
            from,
            state_at(v),
            0,
        )) by {
            lemma_state_at_roundtrip(v);
            lemma_within_zero(from, state_at(v));
        }
    }
    loop
        invariant
            fi == state_index(from),
            ti == state_index(to),
            fi != ti,
            dist_ok(from, dist@, k as nat),
            dist@[ti as int] == UNREACHED,
            k + count_free(dist@) <= 9,
        decreases count_free(dist@),
    {
        proof {
            lemma_count_free_pos(dist@, ti as int);
        }
        let next = next_round(from, &dist, k);
        proof {
            lemma_count_free_shrinks(dist@, next@);
        }
        if next[ti] != UNREACHED {
            let path = walk_back(from, to, &next, k + 1);
            proof {
                assert(!within(from, to, k as nat));
                assert forall|p: Seq<RunState>| #[trigger] is_walk_between(p, from, to) implies path@.len() <= p.len() by {
                    lemma_walk_within(p);
                    if p.len() - 1 <= k {
                        lemma_within_mono(from, to, (p.len() - 1) as nat, k as nat);
                    }
                }
                assert(reachable(from, to));
            }
            return path;
        }
        let mut changed = false;
        let mut i: usize = 0;
        while i < 10
            invariant
                i <= 10,
                dist@.len() == 10,
                next@.len() == 10,
                changed <==> exists|w: int| 0 <= w < i && dist@[w] == UNREACHED && #[trigger] next@[w] != UNREACHED,
            decreases 10 - i,
        {
            if dist[i] == UNREACHED && next[i] != UNREACHED {
                changed = true;
            }
            i = i + 1;
        }
        if !changed {
            proof {
                assert forall|w: RunState| #[trigger] within(from, w, (k + 1) as nat) implies within(from, w, k as nat) by {
                    lemma_state_index_roundtrip(w);
                    let wi = state_index(w);
                    assert(next@[wi] != UNREACHED);
                }
                if reachable(from, to) {
                    let p = choose|p: Seq<RunState>| is_walk_between(p, from, to);
                    lemma_walk_within(p);
                    lemma_within_stable(from, k as nat, (p.len() - 1) as nat, to);
                    assert(dist@[ti as int] != UNREACHED);
                }
            }
            return Vec::new();
        }
        dist = next;
        k = k + 1;
    }
}

/// Every run that has not ended can be canceled in one move.
pub proof fn lemma_live_runs_can_be_canceled(s: RunState)
    ensures
        !terminal(s) ==> can_step(s, RunState::Canceled),
{
    if !terminal(s) {
        let l = legal_seq(s);
        assert(l[l.len() - 1] == RunState::Canceled);
    }
}

/// No move leads back to `Created`, and only a created run is queued.
pub proof fn lemma_no_move_back_to_the_queue(s: RunState)
    ensures
        !can_step(s, RunState::Created),
        can_step(s, RunState::Queued) <==> s == RunState::Created,
{
    if s == RunState::Created {
        assert(legal_seq(s)[0] == RunState::Queued);
    }
}

/// An illegal move of the state machine.
#[derive(Debug, Clone, Copy, PartialEq, Eq, Structural)]
pub struct RunStateError {
    pub from: RunState,
    pub to: RunState,
}

impl RunStateError {
    pub fn new(from: RunState, to: RunState) -> (e: RunStateError)
        ensures
            e.from == from,
            e.to == to,
    {
        RunStateError { from, to }
    }
}

} // verus!
