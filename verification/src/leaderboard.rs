use vstd::prelude::*;
use crate::keys::{Key, is_default_key, keys_equal};
use crate::state::SeasonConfig;

verus! {

/// One leaderboard slot: a player with a finishing time and a death count.
pub type Standing = (Key, u64, u32);

/// `a` ranks strictly ahead of `b`: a faster time, or the same time with
/// fewer deaths.
pub open spec fn beats(a: Standing, b: Standing) -> bool {
    a.1 < b.1 || (a.1 == b.1 && a.2 < b.2)
}

/// The season's top three as a sequence of standings, slot 0 first.
pub open spec fn board(s: SeasonConfig) -> Seq<Standing> {
    seq![
        (s.top_players[0], s.top_times[0], s.top_deaths[0]),
        (s.top_players[1], s.top_times[1], s.top_deaths[1]),
        (s.top_players[2], s.top_times[2], s.top_deaths[2]),
    ]
}

/// Two seasons agree on every field but the top three.
pub open spec fn same_but_board(a: SeasonConfig, b: SeasonConfig) -> bool {
    &&& a.season_id == b.season_id
    &&& a.authority == b.authority
    &&& a.creator == b.creator
    &&& a.stake_amount == b.stake_amount
    &&& a.registration_start == b.registration_start
    &&& a.registration_end == b.registration_end
    &&& a.season_end == b.season_end
    &&& a.prize_pool == b.prize_pool
    &&& a.player_count == b.player_count
    &&& a.status == b.status
    &&& a.bump == b.bump
}

/// The first slot that holds player `p`, or -1 when none does.
pub open spec fn slot_of(b: Seq<Standing>, p: Key) -> int {
    if b[0].0 == p {
        0
    } else if b[1].0 == p {
        1
    } else if b[2].0 == p {
        2
    } else {
        -1
    }
}

/// Among the first `n` slots, `w` holds a worst standing (no slot is ranked
/// behind it) and is the first one that does.
pub open spec fn is_worst_among(b: Seq<Standing>, w: int, n: int) -> bool {
    &&& 0 <= w < n
    &&& forall|k: int| 0 <= k < n ==> !beats(b[w], #[trigger] b[k])
    &&& forall|k: int| 0 <= k < w ==> beats(#[trigger] b[k], b[w])
}

/// The first slot of the top three that holds a worst standing.
pub open spec fn worst_slot(b: Seq<Standing>) -> int {
    choose|w: int| is_worst_among(b, w, 3)
}

/// The top three after a player reaches a new personal best `(t, d)`,
/// before it is put back in order: the player's own slot takes the new
/// result; a player not on the board takes the worst slot if the new result
/// ranks ahead of it; otherwise nothing changes.
pub open spec fn placed(b: Seq<Standing>, p: Key, t: u64, d: u32) -> Seq<Standing> {
    let i = slot_of(b, p);
    if i >= 0 {
        b.update(i, (p, t, d))
    } else if beats((p, t, d), b[worst_slot(b)]) {
        b.update(worst_slot(b), (p, t, d))
    } else {
        b
    }
}

/// Puts slots `i` and `j` (with `i < j`) in order: they trade places when the
/// later one ranks strictly ahead.
pub open spec fn order_pair(b: Seq<Standing>, i: int, j: int) -> Seq<Standing> {
    if beats(b[j], b[i]) {
        b.update(i, b[j]).update(j, b[i])
    } else {
        b
    }
}

/// The three slots put in order by comparing and exchanging the pairs
/// (0, 1), (0, 2) and (1, 2) in turn.
pub open spec fn ranked(b: Seq<Standing>) -> Seq<Standing> {
    order_pair(order_pair(order_pair(b, 0, 1), 0, 2), 1, 2)
}

/// No slot ranks strictly ahead of an earlier one.
pub open spec fn is_ranked(b: Seq<Standing>) -> bool {
    forall|i: int, j: int| 0 <= i < j < b.len() ==> !beats(#[trigger] b[j], #[trigger] b[i])
}

/// `a` holds the three standings of `b`, each exactly once, in some order.
pub open spec fn is_reordering(a: Seq<Standing>, b: Seq<Standing>) -> bool {
    &&& a.len() == 3
    &&& b.len() == 3
    &&& exists|p: Seq<int>| is_permutation3(p) && forall|k: int| 0 <= k < 3 ==> a[k] == b[#[trigger] p[k]]
}

/// `p` maps the slots 0, 1, 2 one-to-one onto themselves.
pub open spec fn is_permutation3(p: Seq<int>) -> bool {
    &&& p.len() == 3
    &&& forall|k: int| 0 <= k < 3 ==> 0 <= #[trigger] p[k] < 3
    &&& p[0] != p[1]
    &&& p[0] != p[2]
    &&& p[1] != p[2]
}

/// Whether `(t1, d1)` ranks strictly ahead of `(t2, d2)`.
pub fn ranks_ahead(t1: u64, d1: u32, t2: u64, d2: u32) -> (r: bool)
    ensures
        r == (t1 < t2 || (t1 == t2 && d1 < d2)),
{
    t1 < t2 || (t1 == t2 && d1 < d2)
}

/// The first slot that holds `player`, if any.
fn find_slot(season: &SeasonConfig, player: &Key) -> (r: Option<usize>)
    ensures
        match r {
            Some(i) => i == slot_of(board(*season), *player),
            None => slot_of(board(*season), *player) == -1,
        },
{
    let mut i: usize = 0;
    while i < 3
        invariant
            i <= 3,
            forall|k: int| 0 <= k < i ==> season.top_players[k] != *player,
        decreases 3 - i,
    {
        if keys_equal(&season.top_players[i], player) {
            return Some(i);
        }
        i = i + 1;
    }
    None
}

/// The first slot that holds a worst standing.
fn find_worst_slot(season: &SeasonConfig) -> (w: usize)
    ensures
        is_worst_among(board(*season), w as int, 3),
{
    let ghost b = board(*season);
    let mut worst_idx: usize = 0;
    let mut i: usize = 1;
    while i < 3
        invariant
            1 <= i <= 3,
            b == board(*season),
            is_worst_among(b, worst_idx as int, i as int),
        decreases 3 - i,
    {
        let current_worse = ranks_ahead(
            season.top_times[worst_idx],
            season.top_deaths[worst_idx],
            season.top_times[i],
            season.top_deaths[i],
        );
        if current_worse {
            worst_idx = i;
        }
        i = i + 1;
    }
    worst_idx
}

/// Exchanges slots `i` and `j` when slot `j` ranks strictly ahead of slot `i`.
fn order_slots(season: &mut SeasonConfig, i: usize, j: usize)
    requires
        i < j < 3,
    ensures
        same_but_board(*final(season), *old(season)),
        board(*final(season)) == order_pair(board(*old(season)), i as int, j as int),
{
    let should_swap = ranks_ahead(
        season.top_times[j],
        season.top_deaths[j],
        season.top_times[i],
        season.top_deaths[i],
    );
    if should_swap {
        let p = season.top_players[i];
        season.top_players[i] = season.top_players[j];
        season.top_players[j] = p;
        let t = season.top_times[i];
        season.top_times[i] = season.top_times[j];
        season.top_times[j] = t;
        let d = season.top_deaths[i];
        season.top_deaths[i] = season.top_deaths[j];
        season.top_deaths[j] = d;
    }
}

/// Records a player's new personal best `(time_ms, deaths)` on the season's
/// top three and puts the three slots back in order.
pub fn record_personal_best(season: &mut SeasonConfig, player: Key, time_ms: u64, deaths: u32)
    ensures
        same_but_board(*final(season), *old(season)),
        board(*final(season)) == ranked(placed(board(*old(season)), player, time_ms, deaths)),
{
    let ghost b0 = board(*season);
    let existing_slot = find_slot(season, &player);
    match existing_slot {
        Some(slot) => {
            season.top_times[slot] = time_ms;
            season.top_deaths[slot] = deaths;
            assert(board(*season) =~= placed(b0, player, time_ms, deaths));
        },
        None => {
            let worst_idx = find_worst_slot(season);
            proof {
                lemma_worst_slot_unique(b0, worst_idx as int);
            }
            let beats_worst = ranks_ahead(
                time_ms,
                deaths,
                season.top_times[worst_idx],
                season.top_deaths[worst_idx],
            );
            if beats_worst {
                season.top_players[worst_idx] = player;
                season.top_times[worst_idx] = time_ms;
                season.top_deaths[worst_idx] = deaths;
            }
            assert(board(*season) =~= placed(b0, player, time_ms, deaths));
        },
    }
    order_slots(season, 0, 1);
    order_slots(season, 0, 2);
    order_slots(season, 1, 2);
}

/// There is exactly one first worst slot.
pub proof fn lemma_worst_slot_unique(b: Seq<Standing>, w: int)
    requires
        b.len() == 3,
        is_worst_among(b, w, 3),
    ensures
        worst_slot(b) == w,
{
    let c = choose|v: int| is_worst_among(b, v, 3);
    assert(is_worst_among(b, c, 3));
    if c < w {
        assert(beats(b[c], b[w]));
    } else if w < c {
        assert(beats(b[w], b[c]));
    }
}


/// Comparing and exchanging the pairs (0, 1), (0, 2), (1, 2) leaves the top
/// three in order, best first.
pub proof fn lemma_ranked_is_ranked(b: Seq<Standing>)
    requires
        b.len() == 3,
    ensures
        ranked(b).len() == 3,
        is_ranked(ranked(b)),
{
    let b1 = order_pair(b, 0, 1);
    let b2 = order_pair(b1, 0, 2);
    let b3 = order_pair(b2, 1, 2);
    assert(!beats(b1[1], b1[0]));
    assert(!beats(b2[1], b2[0]) && !beats(b2[2], b2[0]));
    assert(!beats(b3[1], b3[0]) && !beats(b3[2], b3[0]) && !beats(b3[2], b3[1]));
}

/// Putting one pair in order only moves standings around.
proof fn lemma_order_pair_reorders(b: Seq<Standing>, i: int, j: int)
    requires
        b.len() == 3,
        0 <= i < j < 3,
    ensures
        is_reordering(order_pair(b, i, j), b),
{
    let a = order_pair(b, i, j);
    if beats(b[j], b[i]) {
        let p = seq![0int, 1int, 2int].update(i, j).update(j, i);
        assert(is_permutation3(p));
        assert(forall|k: int| 0 <= k < 3 ==> a[k] == b[#[trigger] p[k]]);
    } else {
        let p = seq![0int, 1int, 2int];
        assert(is_permutation3(p));
        assert(forall|k: int| 0 <= k < 3 ==> a[k] == b[#[trigger] p[k]]);
    }
}

/// A reordering of a reordering is a reordering.
proof fn lemma_reordering_trans(a: Seq<Standing>, b: Seq<Standing>, c: Seq<Standing>)
    requires
        is_reordering(a, b),
        is_reordering(b, c),
    ensures
        is_reordering(a, c),
{
    let p = choose|p: Seq<int>| is_permutation3(p) && forall|k: int| 0 <= k < 3 ==> a[k] == b[#[trigger] p[k]];
    let q = choose|q: Seq<int>| is_permutation3(q) && forall|k: int| 0 <= k < 3 ==> b[k] == c[#[trigger] q[k]];
    let r = seq![q[p[0]], q[p[1]], q[p[2]]];
    assert(0 <= p[0] < 3 && 0 <= p[1] < 3 && 0 <= p[2] < 3);
    assert(0 <= q[p[0]] < 3 && 0 <= q[p[1]] < 3 && 0 <= q[p[2]] < 3);
    assert(a[0] == c[r[0]] && a[1] == c[r[1]] && a[2] == c[r[2]]);
    assert(is_permutation3(r));
    assert(forall|k: int| 0 <= k < 3 ==> a[k] == c[#[trigger] r[k]]);
}

/// Putting the top three in order holds the same three standings.
pub proof fn lemma_ranked_reorders(b: Seq<Standing>)
    requires
        b.len() == 3,
    ensures
        is_reordering(ranked(b), b),
{
    let b1 = order_pair(b, 0, 1);
    let b2 = order_pair(b1, 0, 2);
    lemma_order_pair_reorders(b, 0, 1);
    lemma_order_pair_reorders(b1, 0, 2);
    lemma_order_pair_reorders(b2, 1, 2);
    lemma_reordering_trans(b2, b1, b);
    lemma_reordering_trans(ranked(b), b2, b);
}

/// Player `p` holds no slot.
pub open spec fn off_board(b: Seq<Standing>, p: Key) -> bool {
    forall|k: int| 0 <= k < 3 ==> (#[trigger] b[k]).0 != p
}

/// The standing of a player with personal best `pb`.
pub open spec fn standing(p: Key, pb: (u64, u32)) -> Standing {
    (p, pb.0, pb.1)
}

/// The top three agree with the season's personal bests, slot order aside:
/// a taken slot (any address but the default one, which marks an empty
/// slot) holds its player's personal best; no player holds two
/// slots; and no player off the board (other than the default address,
/// which marks an empty slot) ranks strictly ahead of any slot.
pub open spec fn board_fits_bests(b: Seq<Standing>, bests: Map<Key, (u64, u32)>) -> bool {
    &&& b.len() == 3
    &&& forall|i: int|
        0 <= i < 3 && !is_default_key((#[trigger] b[i]).0) ==> bests.contains_key(b[i].0)
            && bests[b[i].0] == (b[i].1, b[i].2)
    &&& forall|i: int, j: int|
        0 <= i < j < 3 && !is_default_key((#[trigger] b[i]).0) ==> b[i].0 != (#[trigger] b[j]).0
    &&& forall|p: Key, i: int|
        #![trigger bests[p], b[i]]
        bests.contains_key(p) && !is_default_key(p) && off_board(b, p) && 0 <= i < 3 ==> !beats(
            standing(p, bests[p]),
            b[i],
        )
}

/// The live top three of a season: in order, best first, and in agreement
/// with every registered player's personal best (see `board_fits_bests`),
/// so that its slots hold the season's best players.
pub open spec fn board_matches_bests(b: Seq<Standing>, bests: Map<Key, (u64, u32)>) -> bool {
    &&& board_fits_bests(b, bests)
    &&& is_ranked(b)
}

/// Agreement with the personal bests does not depend on slot order.
proof fn lemma_fits_reordering(a: Seq<Standing>, b: Seq<Standing>, bests: Map<Key, (u64, u32)>)
    requires
        board_fits_bests(b, bests),
        is_reordering(a, b),
    ensures
        board_fits_bests(a, bests),
{
    let p = choose|p: Seq<int>| is_permutation3(p) && forall|k: int| 0 <= k < 3 ==> a[k] == b[#[trigger] p[k]];
    assert(a[0] == b[p[0]] && a[1] == b[p[1]] && a[2] == b[p[2]]);
    assert forall|q: Key, i: int|
        #![trigger bests[q], a[i]]
        bests.contains_key(q) && !is_default_key(q) && off_board(a, q) && 0 <= i < 3 implies !beats(
            standing(q, bests[q]),
            a[i],
        ) by {
        assert forall|m: int| 0 <= m < 3 implies (#[trigger] b[m]).0 != q by {
            if p[0] == m {
                assert(a[0] == b[m]);
            } else if p[1] == m {
                assert(a[1] == b[m]);
            } else {
                assert(p[2] == m);
                assert(a[2] == b[m]);
            }
        }
        assert(off_board(b, q));
        assert(b[p[i]] == a[i]);
    }
}

/// The new season's top three, three empty slots, agrees with any personal
/// bests that are all the slowest possible result.
pub proof fn lemma_empty_board_matches(b: Seq<Standing>, bests: Map<Key, (u64, u32)>)
    requires
        b.len() == 3,
        forall|i: int|
            0 <= i < 3 ==> is_default_key((#[trigger] b[i]).0) && b[i].1 == u64::MAX && b[i].2
                == u32::MAX,
        forall|p: Key| #[trigger] bests.contains_key(p) ==> bests[p] == (u64::MAX, u32::MAX),
    ensures
        board_matches_bests(b, bests),
{
}

/// A newly registered player, whose personal best is the slowest possible
/// result, keeps the top three in agreement with the personal bests.
pub proof fn lemma_registration_keeps_board(
    b: Seq<Standing>,
    bests: Map<Key, (u64, u32)>,
    p: Key,
)
    requires
        board_matches_bests(b, bests),
        !bests.contains_key(p),
    ensures
        board_matches_bests(b, bests.insert(p, (u64::MAX, u32::MAX))),
{
    let nb = bests.insert(p, (u64::MAX, u32::MAX));
    assert forall|q: Key, i: int|
        #![trigger nb[q], b[i]]
        nb.contains_key(q) && !is_default_key(q) && off_board(b, q) && 0 <= i < 3 implies !beats(
            standing(q, nb[q]),
            b[i],
        ) by {
        if q != p {
            assert(bests.contains_key(q));
        }
    }
}

/// A player's new personal best, recorded on the top three, keeps the top
/// three in order and in agreement with the updated personal bests: the
/// board still holds the season's best players.
pub proof fn lemma_record_keeps_board(
    b: Seq<Standing>,
    bests: Map<Key, (u64, u32)>,
    p: Key,
    t: u64,
    d: u32,
)
    requires
        board_matches_bests(b, bests),
        !is_default_key(p),
        bests.contains_key(p),
        beats((p, t, d), standing(p, bests[p])),
    ensures
        board_matches_bests(ranked(placed(b, p, t, d)), bests.insert(p, (t, d))),
{
    let nb = bests.insert(p, (t, d));
    let c = placed(b, p, t, d);
    lemma_placed_fits(b, bests, p, t, d);
    lemma_ranked_reorders(c);
    lemma_fits_reordering(ranked(c), c, nb);
    lemma_ranked_is_ranked(c);
}

/// The slots after placing a new personal best agree with the updated
/// personal bests.
proof fn lemma_placed_fits(
    b: Seq<Standing>,
    bests: Map<Key, (u64, u32)>,
    p: Key,
    t: u64,
    d: u32,
)
    requires
        board_matches_bests(b, bests),
        !is_default_key(p),
        bests.contains_key(p),
        beats((p, t, d), standing(p, bests[p])),
    ensures
        board_fits_bests(placed(b, p, t, d), bests.insert(p, (t, d))),
{
    let nb = bests.insert(p, (t, d));
    let c = placed(b, p, t, d);
    let i = slot_of(b, p);
    if i >= 0 {
        assert(b[i].0 == p);
        assert(bests[p] == (b[i].1, b[i].2));
        assert forall|q: Key, k: int|
            #![trigger nb[q], c[k]]
            nb.contains_key(q) && !is_default_key(q) && off_board(c, q) && 0 <= k < 3 implies !beats(
                standing(q, nb[q]),
                c[k],
            ) by {
            assert(c[i].0 == p);
            assert(q != p);
            assert(off_board(b, q)) by {
                assert forall|m: int| 0 <= m < 3 implies (#[trigger] b[m]).0 != q by {
                    assert(c[m].0 == b[m].0);
                }
            }
            assert(!beats(standing(q, bests[q]), b[k]));
        }
    } else {
        let w = choose|v: int| is_worst_among(b, v, 3);
        lemma_worst_slot_exists(b);
        assert(off_board(b, p));
        if beats((p, t, d), b[w]) {
            assert(c == b.update(w, (p, t, d)));
            assert forall|q: Key, k: int|
                #![trigger nb[q], c[k]]
                nb.contains_key(q) && !is_default_key(q) && off_board(c, q) && 0 <= k < 3 implies !beats(
                    standing(q, nb[q]),
                    c[k],
                ) by {
                assert(c[w].0 == p);
                assert(q != p);
                if q == b[w].0 {
                    assert(bests[q] == (b[w].1, b[w].2));
                    assert(!beats(b[w], b[k]));
                } else {
                    assert(off_board(b, q)) by {
                        assert forall|m: int| 0 <= m < 3 implies (#[trigger] b[m]).0 != q by {
                            if m != w {
                                assert(c[m].0 == b[m].0);
                            }
                        }
                    }
                    assert(!beats(standing(q, bests[q]), b[w]));
                    assert(!beats(standing(q, bests[q]), b[k]));
                }
            }
        } else {
            assert(c == b);
            assert forall|q: Key, k: int|
                #![trigger nb[q], c[k]]
                nb.contains_key(q) && !is_default_key(q) && off_board(c, q) && 0 <= k < 3 implies !beats(
                    standing(q, nb[q]),
                    c[k],
                ) by {
                if q != p {
                    assert(!beats(standing(q, bests[q]), b[k]));
                } else {
                    assert(!beats(b[w], b[k]));
                }
            }
        }
    }
}

/// The top three have a first worst slot.
proof fn lemma_worst_slot_exists(b: Seq<Standing>)
    requires
        b.len() == 3,
    ensures
        is_worst_among(b, worst_slot(b), 3),
{
    let w01: int = if beats(b[0], b[1]) { 1 } else { 0 };
    let w: int = if beats(b[w01], b[2]) { 2 } else { w01 };
    assert(is_worst_among(b, w, 3));
}

} // verus!
