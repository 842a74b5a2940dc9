//! Round-robin load balancing over the configured backend list.

use vstd::prelude::*;
use crate::config::ServerConfig;

verus! {

/// The index the `k`-th pick lands on when picking started at `start`.
pub open spec fn spec_pick_at(start: nat, k: nat, len: nat) -> nat {
    (start + k) % (len as int) as nat
}

/// How many of the first `k` picks, starting at `start`, land on `t`.
pub open spec fn spec_count_hits(start: nat, k: nat, len: nat, t: nat) -> nat
    decreases k,
{
    if k == 0 {
        0
    } else {
        spec_count_hits(start, (k - 1) as nat, len, t) + if spec_pick_at(
            start,
            (k - 1) as nat,
            len,
        ) == t {
            1nat
        } else {
            0nat
        }
    }
}

proof fn lemma_count_monotone(start: nat, k1: nat, k2: nat, len: nat, t: nat)
    requires
        k1 <= k2,
    ensures
        spec_count_hits(start, k1, len, t) <= spec_count_hits(start, k2, len, t),
    decreases k2,
{
    if k1 < k2 {
        lemma_count_monotone(start, k1, (k2 - 1) as nat, len, t);
    }
}

proof fn lemma_count_split(start: nat, k1: nat, k2: nat, len: nat, t: nat)
    ensures
        spec_count_hits(start, (k1 + k2) as nat, len, t) == spec_count_hits(start, k1, len, t)
            + spec_count_hits((start + k1) as nat, k2, len, t),
    decreases k2,
{
    if k2 > 0 {
        lemma_count_split(start, k1, (k2 - 1) as nat, len, t);
        assert(spec_pick_at(start, (k1 + (k2 - 1)) as nat, len) == spec_pick_at(
            (start + k1) as nat,
            (k2 - 1) as nat,
            len,
        ));
    }
}

/// Within any window of `len` consecutive picks, a given index is hit at
/// most once, and a full window hits it exactly once.
proof fn lemma_count_unique(start: nat, k: nat, len: nat, t: nat, j0: nat)
    requires
        len > 0,
        t < len,
        k <= len,
        j0 < len,
        spec_pick_at(start, j0, len) == t,
        forall|j: nat| j < len && j != j0 ==> spec_pick_at(start, j, len) != t,
    ensures
        spec_count_hits(start, k, len, t) == if j0 < k {
            1nat
        } else {
            0nat
        },
    decreases k,
{
    if k > 0 {
        lemma_count_unique(start, (k - 1) as nat, len, t, j0);
        if (k - 1) as nat != j0 {
            assert(spec_pick_at(start, (k - 1) as nat, len) != t);
        }
    }
}

/// Each index under `len` is hit by exactly one offset within a window.
proof fn lemma_window_hit(start: nat, len: nat, t: nat) -> (j0: nat)
    requires
        len > 0,
        t < len,
    ensures
        j0 < len,
        spec_pick_at(start, j0, len) == t,
        forall|j: nat| j < len && j != j0 ==> spec_pick_at(start, j, len) != t,
{
    let li = len as int;
    vstd::arithmetic::div_mod::lemma_mod_bound(start as int, li);
    let s = ((start as int) % li) as nat;
    let j0 = if t >= s {
        (t - s) as nat
    } else {
        (t + len - s) as nat
    };
    assert(spec_pick_at(start, j0, len) == t) by {
        vstd::arithmetic::div_mod::lemma_add_mod_noop(start as int, j0 as int, li);
        vstd::arithmetic::div_mod::lemma_small_mod(j0, len);
        assert((start as int + j0 as int) % li == (s as int + j0 as int) % li);
        if t >= s {
            assert(s as int + j0 as int == t as int);
            vstd::arithmetic::div_mod::lemma_small_mod(t, len);
        } else {
            assert(s as int + j0 as int == li + t as int);
            vstd::arithmetic::div_mod::lemma_mod_add_multiples_vanish(t as int, li);
            vstd::arithmetic::div_mod::lemma_small_mod(t, len);
        }
    }
    assert forall|j: nat| j < len && j != j0 implies spec_pick_at(start, j, len) != t by {
        if spec_pick_at(start, j, len) == t {
            vstd::arithmetic::div_mod::lemma_add_mod_noop(start as int, j as int, li);
            vstd::arithmetic::div_mod::lemma_small_mod(j, len);
            assert((s as int + j as int) % li == t as int);
            if s + j < len {
                vstd::arithmetic::div_mod::lemma_small_mod((s + j) as nat, len);
                assert(j == j0);
            } else {
                vstd::arithmetic::div_mod::lemma_mod_sub_multiples_vanish(
                    (s + j) as int,
                    li,
                );
                vstd::arithmetic::div_mod::lemma_small_mod((s + j - len) as nat, len);
                assert(j == j0);
            }
        }
    }
    j0
}

proof fn lemma_window(start: nat, len: nat, t: nat)
    requires
        len > 0,
        t < len,
    ensures
        spec_count_hits(start, len, len, t) == 1,
{
    let j0 = lemma_window_hit(start, len, t);
    lemma_count_unique(start, len, len, t, j0);
}

/// Load balancer fairness: over `k` picks on a list of length `len`, a
/// given index is picked either `k / len` times or one more — that is,
/// exactly the floor or the ceiling of `k / len` — and exactly `k / len`
/// times when `len` divides `k`.
pub proof fn lemma_round_robin_fairness(start: nat, k: nat, len: nat, t: nat)
    requires
        len > 0,
        t < len,
    ensures
        k / len <= spec_count_hits(start, k, len, t) <= k / len + 1,
        k % len == 0 ==> spec_count_hits(start, k, len, t) == k / len,
    decreases k,
{
    if k < len {
        vstd::arithmetic::div_mod::lemma_basic_div(k as int, len as int);
        vstd::arithmetic::div_mod::lemma_small_mod(k, len);
        lemma_count_monotone(start, k, len, len, t);
        lemma_window(start, len, t);
    } else {
        lemma_count_split(start, len, (k - len) as nat, len, t);
        lemma_window(start, len, t);
        lemma_round_robin_fairness((start + len) as nat, (k - len) as nat, len, t);
        assert(k as int / len as int == (k - len) as int / len as int + 1) by {
            vstd::arithmetic::div_mod::lemma_div_plus_one(k as int - len as int, len as int);
        }
        assert(k as int % len as int == (k - len) as int % len as int) by {
            vstd::arithmetic::div_mod::lemma_mod_sub_multiples_vanish(k as int, len as int);
        }
        assert(spec_count_hits((start + len) as nat, (k - len) as nat, len, t) == spec_count_hits(
            start,
            (k - len) as nat,
            len,
            t,
        )) by {
            lemma_count_shift(start, (k - len) as nat, len, t);
        }
    }
}

/// Advancing the start by one full cycle does not change the hit count.
proof fn lemma_count_shift(start: nat, k: nat, len: nat, t: nat)
    requires
        len > 0,
    ensures
        spec_count_hits((start + len) as nat, k, len, t) == spec_count_hits(start, k, len, t),
    decreases k,
{
    if k > 0 {
        lemma_count_shift(start, (k - 1) as nat, len, t);
        assert(spec_pick_at((start + len) as nat, (k - 1) as nat, len) == spec_pick_at(
            start,
            (k - 1) as nat,
            len,
        )) by {
            vstd::arithmetic::div_mod::lemma_mod_add_multiples_vanish(
                (start + (k - 1)) as int,
                len as int,
            );
        }
    }
}

/// The round-robin selector: an ordered server list and a cursor that
/// advances once per pick.
pub struct RoundRobin {
    pub servers: Vec<ServerConfig>,
    pub index: usize,
    /// The cursor position the balancer started at.
    pub start: Ghost<nat>,
    /// How many picks have been made.
    pub picks: Ghost<nat>,
}

impl RoundRobin {
    pub open spec fn wf(&self) -> bool {
        &&& self.servers@.len() >= 1
        &&& (self.index as int) < self.servers@.len()
        &&& self.index as int == ((self.start@ + self.picks@) as int) % (
        self.servers@.len() as int)
    }

    /// Starts the cursor at the head of the list.
    pub fn new(servers: Vec<ServerConfig>) -> (rr: RoundRobin)
        requires
            servers@.len() >= 1,
        ensures
            rr.wf(),
            rr.servers@ == servers@,
            rr.index == 0,
            rr.start@ == 0,
            rr.picks@ == 0,
    {
        let rr = RoundRobin { servers, index: 0, start: Ghost(0), picks: Ghost(0) };
        proof {
            vstd::arithmetic::div_mod::lemma_small_mod(0, rr.servers@.len() as nat);
        }
        rr
    }

    /// The number of configured servers.
    pub fn total(&self) -> (n: usize)
        ensures
            n == self.servers@.len(),
    {
        self.servers.len()
    }

    /// Picks the next server, returning its index in the list; the cursor
    /// advances exactly once.
    pub fn pick_server(&mut self) -> (i: usize)
        requires
            old(self).wf(),
        ensures
            final(self).wf(),
            final(self).servers@ == old(self).servers@,
            final(self).start@ == old(self).start@,
            final(self).picks@ == old(self).picks@ + 1,
            i == old(self).index,
            i as nat == spec_pick_at(
                old(self).start@,
                old(self).picks@,
                old(self).servers@.len() as nat,
            ),
            (i as int) < old(self).servers@.len(),
    {
        let i = self.index;
        let len = self.servers.len();
        self.index = (self.index + 1) % len;
        proof {
            self.picks = Ghost(self.picks@ + 1);
            vstd::arithmetic::div_mod::lemma_add_mod_noop_right(
                1,
                (self.start@ + old(self).picks@) as int,
                len as int,
            );
        }
        i
    }

    /// A borrow of the picked server's configuration.
    pub fn server_at(&self, i: usize) -> (c: &ServerConfig)
        requires
            (i as int) < self.servers@.len(),
        ensures
            *c == self.servers@[i as int],
    {
        &self.servers[i]
    }
}

} // verus!
