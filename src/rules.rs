//! The arithmetic of a round: how many undercover roles are dealt, how a
//! vote is tallied, who has won, and how much time a timed phase has left.
use vstd::prelude::*;

verus! {

/// Number of Undercover roles dealt to `n` players: one for up to six
/// players, otherwise a quarter of the table rounded up.
pub open spec fn undercover_quota(n: nat) -> nat {
    if n <= 6 {
        1
    } else {
        (n + 3) / 4
    }
}

/// How many Undercover roles a game of `player_count` players deals.
pub fn undercover_count(player_count: usize) -> (r: usize)
    ensures
        r == undercover_quota(player_count as nat),
        player_count > 6 ==> 4 * r >= player_count && 4 * (r - 1) < player_count,
{
    if player_count <= 6 {
        1
    } else {
        player_count / 4 + if player_count % 4 == 0 { 0 } else { 1 }
    }
}

/// Number of votes in `votes` (pairs of voter and target) that name `target`.
pub open spec fn votes_for(votes: Seq<(String, String)>, target: Seq<char>) -> nat
    decreases votes.len(),
{
    if votes.len() == 0 {
        0
    } else {
        votes_for(votes.drop_last(), target) + if votes.last().1@ == target {
            1nat
        } else {
            0nat
        }
    }
}

/// `target` received strictly more votes than anyone else, and at least one.
pub open spec fn sole_leader(votes: Seq<(String, String)>, target: Seq<char>) -> bool {
    &&& votes_for(votes, target) > 0
    &&& forall|other: Seq<char>|
        other != target ==> #[trigger] votes_for(votes, other) < votes_for(votes, target)
}

/// The word that stands for "nobody is eliminated" after a tied vote.
pub open spec fn tie_marker() -> Seq<char> {
    seq!['t', 'i', 'e']
}

/// The outcome of a vote: the sole leader's id, or the tie marker when no
/// single target has the most votes.
pub open spec fn tally_outcome(votes: Seq<(String, String)>, result: Seq<char>) -> bool {
    if exists|t: Seq<char>| sole_leader(votes, t) {
        sole_leader(votes, result)
    } else {
        result == tie_marker()
    }
}

proof fn lemma_votes_for_positive(votes: Seq<(String, String)>, target: Seq<char>)
    requires
        votes_for(votes, target) > 0,
    ensures
        exists|j: int| 0 <= j < votes.len() && (#[trigger] votes[j]).1@ == target,
    decreases votes.len(),
{
    if votes.last().1@ == target {
        assert(votes[votes.len() - 1].1@ == target);
    } else {
        lemma_votes_for_positive(votes.drop_last(), target);
        let j = choose|j: int| 0 <= j < votes.drop_last().len() && (#[trigger] votes.drop_last()[j]).1@ == target;
        assert(votes[j] == votes.drop_last()[j]);
    }
}

/// Counts the votes in `votes` that name `target`.
pub fn count_votes_for(votes: &Vec<(String, String)>, target: &String) -> (r: usize)
    ensures
        r == votes_for(votes@, target@),
{
    let mut count: usize = 0;
    let mut j: usize = 0;
    while j < votes.len()
        invariant
            j <= votes.len(),
            count == votes_for(votes@.subrange(0, j as int), target@),
            count <= j,
        decreases votes.len() - j,
    {
        assert(votes@.subrange(0, j + 1).drop_last() =~= votes@.subrange(0, j as int));
        if votes[j].1 == *target {
            count = count + 1;
        }
        j = j + 1;
    }
    assert(votes@.subrange(0, votes.len() as int) =~= votes@);
    count
}

/// Tallies a completed vote. Returns the id of the one player who received
/// strictly the most votes, or `"tie"` when two or more targets share the
/// highest count (or nobody voted).
pub fn tally_votes(votes: &Vec<(String, String)>) -> (r: String)
    ensures
        tally_outcome(votes@, r@),
{
    let n = votes.len();
    let mut best: usize = 0;
    let mut best_count: usize = 0;
    let mut tied: bool = false;
    let mut i: usize = 0;
    while i < n
        invariant
            n == votes.len(),
            i <= n,
            best < n || n == 0,
            i == 0 ==> best_count == 0 && !tied,
            i > 0 ==> best < i && best_count == votes_for(votes@, votes@[best as int].1@),
            forall|j: int| 0 <= j < i ==> votes_for(votes@, (#[trigger] votes@[j]).1@) <= best_count,
            tied <==> exists|j: int|
                0 <= j < i && votes_for(votes@, (#[trigger] votes@[j]).1@) == best_count
                    && votes@[j].1@ != votes@[best as int].1@,
        decreases n - i,
    {
        let c = count_votes_for(votes, &votes[i].1);
        if i == 0 || c > best_count {
            best = i;
            best_count = c;
            tied = false;
            proof {
                if i == 0 {
                    assert(votes@.subrange(0, 0) =~= Seq::<(String, String)>::empty());
                }
            }
        } else if c == best_count && votes[i].1 != votes[best].1 {
            tied = true;
        }
        i = i + 1;
    }
    if n == 0 || tied {
        proof {
            assert forall|t: Seq<char>| !sole_leader(votes@, t) by {
                if sole_leader(votes@, t) {
                    lemma_votes_for_positive(votes@, t);
                    let j = choose|j: int| 0 <= j < votes@.len() && (#[trigger] votes@[j]).1@ == t;
                    assert(votes_for(votes@, votes@[j].1@) <= best_count);
                    let k = choose|k: int|
                        0 <= k < n && votes_for(votes@, (#[trigger] votes@[k]).1@) == best_count
                            && votes@[k].1@ != votes@[best as int].1@;
                    if t == votes@[best as int].1@ {
                        assert(votes_for(votes@, votes@[k].1@) < votes_for(votes@, t));
                    } else {
                        assert(votes_for(votes@, votes@[best as int].1@) < votes_for(votes@, t));
                    }
                }
            }
        }
        proof {
            reveal_strlit("tie");
        }
        let r = String::from_str("tie");
        assert(r@ == tie_marker());
        assert(!exists|t: Seq<char>| sole_leader(votes@, t));
        r
    } else {
        let winner = votes[best].1.clone();
        proof {
            let t = winner@;
            assert forall|other: Seq<char>| other != t implies #[trigger] votes_for(votes@, other)
                < votes_for(votes@, t) by {
                if votes_for(votes@, other) > 0 {
                    lemma_votes_for_positive(votes@, other);
                    let j = choose|j: int| 0 <= j < votes@.len() && (#[trigger] votes@[j]).1@ == other;
                    assert(votes_for(votes@, votes@[j].1@) <= best_count);
                }
            }
            assert(votes_for(votes@, votes@[best as int].1@) > 0) by {
                let j = best as int;
                assert(votes_for(votes@, votes@[j].1@) >= 1) by {
                    lemma_votes_for_at_least_one(votes@, j);
                }
            }
            assert(sole_leader(votes@, t));
            assert(tally_outcome(votes@, t));
        }
        winner
    }
}

proof fn lemma_votes_for_at_least_one(votes: Seq<(String, String)>, j: int)
    requires
        0 <= j < votes.len(),
    ensures
        votes_for(votes, votes[j].1@) >= 1,
    decreases votes.len(),
{
    if j < votes.len() - 1 {
        lemma_votes_for_at_least_one(votes.drop_last(), j);
        assert(votes.drop_last()[j] == votes[j]);
    }
}

/// Which side has won, given the alive players of each role, or `None`
/// when the game goes on. Civilians win once no Undercover is alive;
/// Undercover wins on outnumbering the Civilians, or once at most two
/// players are alive and one of them is Undercover.
pub open spec fn winner_of(alive_undercover: nat, alive_civilian: nat) -> Option<crate::game::Role> {
    if alive_undercover == 0 {
        Some(crate::game::Role::Civilian)
    } else if alive_undercover > alive_civilian || alive_undercover + alive_civilian <= 2 {
        Some(crate::game::Role::Undercover)
    } else {
        None
    }
}

/// Decides the win condition from the counts of alive players by role.
pub fn decide_winner(alive_undercover: usize, alive_civilian: usize) -> (r: Option<crate::game::Role>)
    ensures
        r == winner_of(alive_undercover as nat, alive_civilian as nat),
{
    if alive_undercover == 0 {
        Some(crate::game::Role::Civilian)
    } else if alive_undercover > alive_civilian || (alive_undercover as u128) + (alive_civilian as u128) <= 2 {
        Some(crate::game::Role::Undercover)
    } else {
        None
    }
}

/// Milliseconds elapsed since `start_ms`; a clock reading before the start
/// counts as no time elapsed.
pub open spec fn elapsed_ms(start_ms: i64, now_ms: i64) -> int {
    if now_ms > start_ms {
        now_ms - start_ms
    } else {
        0
    }
}

/// Whole seconds left of a timed phase that started at `start_ms` and lasts
/// `duration_secs`, seen at `now_ms`; zero once the time is up.
pub open spec fn seconds_left(start_ms: i64, duration_secs: u64, now_ms: i64) -> int {
    let left_ms = duration_secs * 1000 - elapsed_ms(start_ms, now_ms);
    if left_ms > 0 {
        left_ms / 1000
    } else {
        0
    }
}

/// The phase's time has run out: strictly more than its duration has passed.
pub open spec fn deadline_passed(start_ms: i64, duration_secs: u64, now_ms: i64) -> bool {
    now_ms - start_ms > duration_secs * 1000
}

/// Computes [`seconds_left`].
pub fn remaining_seconds(start_ms: i64, duration_secs: u64, now_ms: i64) -> (r: u64)
    ensures
        r == seconds_left(start_ms, duration_secs, now_ms),
        r <= duration_secs,
{
    let elapsed: i128 = if now_ms > start_ms {
        (now_ms as i128) - (start_ms as i128)
    } else {
        0
    };
    let left_ms: i128 = (duration_secs as i128) * 1000 - elapsed;
    if left_ms > 0 {
        let secs = left_ms / 1000;
        assert(secs <= duration_secs) by (nonlinear_arith)
            requires
                secs == left_ms / 1000,
                left_ms <= (duration_secs as int) * 1000,
                left_ms > 0,
        ;
        secs as u64
    } else {
        0
    }
}

/// Whether the phase's time has run out.
pub fn is_deadline_passed(start_ms: i64, duration_secs: u64, now_ms: i64) -> (r: bool)
    ensures
        r == deadline_passed(start_ms, duration_secs, now_ms),
{
    (now_ms as i128) - (start_ms as i128) > (duration_secs as i128) * 1000
}

/// `target` has an entry in `counts`.
pub open spec fn counted(counts: Seq<(String, usize)>, target: Seq<char>) -> bool {
    exists|k: int| 0 <= k < counts.len() && (#[trigger] counts[k]).0@ == target
}

/// Each distinct target of `votes` with its number of votes, in the order
/// the targets first appear.
pub fn vote_counts(votes: &Vec<(String, String)>) -> (r: Vec<(String, usize)>)
    ensures
        forall|k: int| 0 <= k < r@.len() ==> (#[trigger] r@[k]).1 == votes_for(votes@, r@[k].0@)
            && r@[k].1 > 0,
        forall|j: int| 0 <= j < votes@.len() ==> counted(r@, (#[trigger] votes@[j]).1@),
        forall|a: int, b: int| 0 <= a < r@.len() && 0 <= b < r@.len() && a != b ==> (#[trigger] r@[a]).0@ != (#[trigger] r@[b]).0@,
{
    let mut out: Vec<(String, usize)> = Vec::new();
    let mut i: usize = 0;
    while i < votes.len()
        invariant
            i <= votes@.len(),
            forall|k: int| 0 <= k < out@.len() ==> (#[trigger] out@[k]).1 == votes_for(votes@, out@[k].0@)
                && out@[k].1 > 0,
            forall|j: int| 0 <= j < i ==> counted(out@, (#[trigger] votes@[j]).1@),
            forall|a: int, b: int| 0 <= a < out@.len() && 0 <= b < out@.len() && a != b ==> (#[trigger] out@[a]).0@ != (#[trigger] out@[b]).0@,
        decreases votes.len() - i,
    {
        let target = &votes[i].1;
        let mut seen = false;
        let mut k: usize = 0;
        while k < out.len()
            invariant
                k <= out@.len(),
                seen ==> exists|q: int| 0 <= q < out@.len() && (#[trigger] out@[q]).0@ == target@,
                !seen ==> forall|q: int| 0 <= q < k ==> (#[trigger] out@[q]).0@ != target@,
            decreases out.len() - k,
        {
            if out[k].0 == *target {
                seen = true;
            }
            k = k + 1;
        }
        if !seen {
            let c = count_votes_for(votes, target);
            proof {
                lemma_votes_for_at_least_one(votes@, i as int);
            }
            let ghost before = out@;
            out.push((target.clone(), c));
            proof {
                assert forall|k: int| 0 <= k < out@.len() implies (#[trigger] out@[k]).1 == votes_for(votes@, out@[k].0@)
                    && out@[k].1 > 0 by {
                    if k < before.len() {
                        assert(out@[k] == before[k]);
                    }
                }
                assert forall|j: int| 0 <= j < i + 1 implies counted(out@, (#[trigger] votes@[j]).1@) by {
                    if j < i {
                        let k = choose|k: int| 0 <= k < before.len() && (#[trigger] before[k]).0@ == votes@[j].1@;
                        assert(out@[k] == before[k]);
                    } else {
                        assert(out@[out@.len() - 1].0@ == votes@[j].1@);
                    }
                }
                assert forall|a: int, b: int| 0 <= a < out@.len() && 0 <= b < out@.len() && a != b implies (#[trigger] out@[a]).0@ != (#[trigger] out@[b]).0@ by {
                    if a < before.len() && b < before.len() {
                        assert(out@[a] == before[a] && out@[b] == before[b]);
                    } else if a < before.len() {
                        assert(out@[a] == before[a]);
                    } else if b < before.len() {
                        assert(out@[b] == before[b]);
                    }
                }
            }
        }
        i = i + 1;
    }
    out
}

} // verus!
