//! The next-actor resolver: after a bet, which player must act next. The
//! seated players are taken in seat order starting just past the acting seat,
//! wrapping past the table boundary, and every player whose still-in-betting
//! flag is false is skipped.

use vstd::prelude::*;

use crate::state::{players_view, Player, PlayerV};

verus! {

/// The forward cyclic distance from seat `from` to seat `to`: how many seats
/// ahead `to` lies when counting upward and wrapping past the greatest seat
/// number back to the lowest.
pub open spec fn seat_dist(from: u8, to: u8) -> int {
    if to > from {
        to - from
    } else {
        to - from + 256
    }
}

/// Whether a player can be the next actor after the acting seat: still in
/// betting, and not the acting seat itself.
pub open spec fn is_candidate(q: PlayerV, acting: u8) -> bool {
    q.round_betting && q.seat_num != acting
}

/// The candidate at or after index `i` whose seat lies fewest seats ahead of
/// the acting seat (ties broken toward the lower index).
pub open spec fn next_actor_from(ps: Seq<PlayerV>, acting: u8, i: int) -> Option<int>
    decreases ps.len() - i,
{
    if i < 0 || i >= ps.len() {
        None
    } else {
        let rest = next_actor_from(ps, acting, i + 1);
        if is_candidate(ps[i], acting) {
            match rest {
                Some(k) => {
                    if seat_dist(acting, ps[i].seat_num) <= seat_dist(acting, ps[k].seat_num) {
                        Some(i)
                    } else {
                        Some(k)
                    }
                },
                None => Some(i),
            }
        } else {
            rest
        }
    }
}

/// The next actor after the acting seat: the still-in-betting player whose
/// seat lies fewest seats ahead cyclically, or nothing when no player is
/// still in betting.
pub open spec fn next_actor(ps: Seq<PlayerV>, acting: u8) -> Option<int> {
    next_actor_from(ps, acting, 0)
}

/// What the resolver's choice means: the chosen player is a candidate and no
/// candidate lies fewer seats ahead of the acting seat; when nothing is
/// chosen, no candidate exists. In particular every player scanned over
/// (fewer seats ahead than the chosen one) has the still-in-betting flag
/// false or is the acting seat, and a candidate below the acting seat number
/// is reached by wrapping past the table boundary.
pub proof fn lemma_next_actor_from(ps: Seq<PlayerV>, acting: u8, i: int)
    requires
        0 <= i <= ps.len(),
    ensures
        match next_actor_from(ps, acting, i) {
            Some(k) => i <= k < ps.len() && is_candidate(ps[k], acting) && (forall|j: int|
                i <= j < ps.len() && is_candidate(#[trigger] ps[j], acting) ==> seat_dist(
                    acting,
                    ps[k].seat_num,
                ) <= seat_dist(acting, ps[j].seat_num)),
            None => forall|j: int| i <= j < ps.len() ==> !is_candidate(#[trigger] ps[j], acting),
        },
    decreases ps.len() - i,
{
    if i < ps.len() {
        lemma_next_actor_from(ps, acting, i + 1);
    }
}

/// [`lemma_next_actor_from`], from the start of the sequence.
pub proof fn lemma_next_actor(ps: Seq<PlayerV>, acting: u8)
    ensures
        match next_actor(ps, acting) {
            Some(k) => 0 <= k < ps.len() && is_candidate(ps[k], acting) && (forall|j: int|
                0 <= j < ps.len() && is_candidate(#[trigger] ps[j], acting) ==> seat_dist(
                    acting,
                    ps[k].seat_num,
                ) <= seat_dist(acting, ps[j].seat_num)),
            None => forall|j: int| 0 <= j < ps.len() ==> !is_candidate(#[trigger] ps[j], acting),
        },
{
    lemma_next_actor_from(ps, acting, 0);
}

/// The forward cyclic distance, computed executably.
pub fn seat_dist_exec(from: u8, to: u8) -> (d: u16)
    ensures
        d == seat_dist(from, to),
{
    if to > from {
        (to - from) as u16
    } else {
        to as u16 + 256 - from as u16
    }
}

/// Find the next actor among the players: the still-in-betting player (other
/// than the acting seat) whose seat lies fewest seats ahead of the acting
/// seat, wrapping past the table boundary.
pub fn find_next_actor(players: &Vec<Player>, acting: u8) -> (r: Option<usize>)
    ensures
        match r {
            Some(k) => k < players@.len() && next_actor(players_view(players@), acting) == Some(
                k as int,
            ),
            None => next_actor(players_view(players@), acting) is None,
        },
{
    let ghost ps = players_view(players@);
    let n = players.len();
    let mut best: Option<usize> = None;
    let mut best_dist: u16 = 0;
    let mut k: usize = n;
    while k > 0
        invariant
            k <= n,
            n == players@.len(),
            ps == players_view(players@),
            ps.len() == n,
            match best {
                Some(b) => b < n && best_dist == seat_dist(acting, ps[b as int].seat_num)
                    && next_actor_from(ps, acting, k as int) == Some(b as int),
                None => next_actor_from(ps, acting, k as int) is None,
            },
        decreases k,
    {
        k = k - 1;
        let q = &players[k];
        if q.round_betting && q.seat_num != acting {
            let d = seat_dist_exec(acting, q.seat_num);
            match best {
                Some(_) => {
                    if d <= best_dist {
                        best = Some(k);
                        best_dist = d;
                    }
                },
                None => {
                    best = Some(k);
                    best_dist = d;
                },
            }
        }
        assert(ps[k as int] == players@[k as int]@);
    }
    best
}

} // verus!
