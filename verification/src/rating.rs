//! The rating aggregator: a courier's reputation is the weighted average of
//! its recent rating history, smoothed by history-length-dependent padding.
//! The score is kept as an exact fraction — weighted sum over weight total —
//! so every property of it is exact; dividing it out is the caller's choice.

use vstd::prelude::*;

use crate::store::{get_courier_rating, is_recent_rating_history, Store};

verus! {

/// The sum of the weights `1..=n`.
pub open spec fn triangular(n: int) -> int
    decreases n,
{
    if n <= 0 {
        0
    } else {
        n + triangular(n - 1)
    }
}

/// Weighted sum of a rating sequence where the first element weighs `w` and
/// each later element one less.
pub open spec fn wsum(s: Seq<i16>, w: int) -> int
    decreases s.len(),
{
    if s.len() == 0 {
        0
    } else {
        s[0] * w + wsum(s.drop_first(), w - 1)
    }
}

/// Weighted sum with positional weights `len..=1`: the first (most recent)
/// rating gets the highest weight, the last the lowest.
pub open spec fn weighted_sum(s: Seq<i16>) -> int {
    wsum(s, s.len() as int)
}

pub open spec fn const_ratings(n: int, c: i16) -> Seq<i16> {
    Seq::new(n as nat, |i: int| c)
}

/// The smoothing rule: an under-sampled history (at most 99 real ratings)
/// gets 50 optimistic fives appended; a history of 100 to 149 ratings is
/// topped up to 150 with penalising ones; nothing is appended beyond that.
pub open spec fn padded_ratings(s: Seq<i16>) -> Seq<i16> {
    if s.len() <= 99 {
        s + const_ratings(50, 5)
    } else if s.len() <= 149 {
        s + const_ratings(150 - s.len() as int, 1)
    } else {
        s
    }
}

pub open spec fn all_ratings_in_range(s: Seq<i16>) -> bool {
    forall|i: int| 0 <= i < s.len() ==> 1 <= #[trigger] s[i] <= 5
}

/// A courier's reputation score as an exact fraction:
/// `score_num / score_den`.
#[derive(Clone, Copy, PartialEq, Eq, Structural, Debug)]
pub struct WeightedScore {
    pub score_num: u64,
    pub score_den: u64,
}

/// A refreshed score on its way to the matching service.
#[derive(Clone, Copy, PartialEq, Eq, Structural, Debug)]
pub struct RatingUpdate {
    pub courier_uuid: u128,
    pub score: WeightedScore,
}

// ---------------------------------------------------------------------------
// Arithmetic lemmas
// ---------------------------------------------------------------------------

pub proof fn lemma_triangular_doubled(n: int)
    requires
        n >= 0,
    ensures
        2 * triangular(n) == n * (n + 1),
    decreases n,
{
    if n == 0 {
    } else {
        lemma_triangular_doubled(n - 1);
        assert(2 * n + (n - 1) * n == n * (n + 1)) by (nonlinear_arith);
    }
}

/// One step of the weighted-sum loop: scanning one more rating adds that
/// rating times its positional weight.
pub proof fn lemma_wsum_take_step(s: Seq<i16>, w0: int, i: int)
    requires
        0 <= i < s.len(),
    ensures
        wsum(s.take(i + 1), w0) == wsum(s.take(i), w0) + s[i] * (w0 - i),
    decreases i,
{
    if i == 0 {
        assert(s.take(1) =~= seq![s[0]]);
        assert(s.take(0) =~= Seq::<i16>::empty());
        assert(seq![s[0]].drop_first() =~= Seq::<i16>::empty());
        assert(wsum(Seq::<i16>::empty(), w0 - 1) == 0);
        assert(wsum(Seq::<i16>::empty(), w0) == 0);
        assert(seq![s[0]][0] == s[0]);
        assert(wsum(seq![s[0]], w0) == s[0] * w0 + wsum(seq![s[0]].drop_first(), w0 - 1));
    } else {
        let d = s.drop_first();
        assert(s.take(i + 1).drop_first() =~= d.take(i));
        assert(s.take(i).drop_first() =~= d.take(i - 1));
        lemma_wsum_take_step(d, w0 - 1, i - 1);
        assert(s.take(i + 1)[0] == s[0]);
        assert(s.take(i)[0] == s[0]);
        assert(d[i - 1] == s[i]);
        assert(s.take(i + 1).len() == i + 1);
        assert(s.take(i).len() == i);
        assert(wsum(s.take(i + 1), w0) == s[0] * w0 + wsum(d.take(i), w0 - 1));
        assert(wsum(s.take(i), w0) == s[0] * w0 + wsum(d.take(i - 1), w0 - 1));
        assert(wsum(d.take(i), w0 - 1) == wsum(d.take(i - 1), w0 - 1) + d[i - 1] * ((w0 - 1) - (i
            - 1)));
    }
}

/// The weighted sum of `n` equal ratings `c` under top weight `w` is `c`
/// times the sum of the weights `w-n+1..=w`, a difference of triangulars.
pub proof fn lemma_wsum_const(n: int, c: i16, w: int)
    requires
        0 <= n <= w,
    ensures
        wsum(const_ratings(n, c), w) == c * (triangular(w) - triangular(w - n)),
    decreases n,
{
    if n == 0 {
        assert(const_ratings(0, c) =~= Seq::<i16>::empty());
        assert(wsum(Seq::<i16>::empty(), w) == 0);
        assert(c * (triangular(w) - triangular(w)) == 0) by (nonlinear_arith);
    } else {
        let s = const_ratings(n, c);
        assert(s.len() == n);
        assert(wsum(s, w) == s[0] * w + wsum(s.drop_first(), w - 1));
        assert(s.drop_first() =~= const_ratings(n - 1, c));
        lemma_wsum_const(n - 1, c, w - 1);
        let tw = triangular(w);
        let tw1 = triangular(w - 1);
        let twn = triangular(w - n);
        assert(tw == w + tw1);
        assert(s[0] == c);
        assert(wsum(s, w) == c * w + c * (tw1 - twn));
        assert(c * w + c * (tw1 - twn) == c * (tw - twn)) by (nonlinear_arith)
            requires
                tw == w + tw1,
        ;
    }
}

/// Splitting a rating sequence splits its weighted sum: the tail's top
/// weight is what is left after the head's weights are spent.
pub proof fn lemma_wsum_concat(a: Seq<i16>, b: Seq<i16>, w: int)
    ensures
        wsum(a + b, w) == wsum(a, w) + wsum(b, w - a.len()),
    decreases a.len(),
{
    if a.len() == 0 {
        assert(a + b =~= b);
    } else {
        assert((a + b).drop_first() =~= a.drop_first() + b);
        lemma_wsum_concat(a.drop_first(), b, w - 1);
        assert((a + b)[0] == a[0]);
        assert((a + b).len() == a.len() + b.len());
    }
}

// ---------------------------------------------------------------------------
// Stated properties of the smoothing rule
// ---------------------------------------------------------------------------

/// A courier with no real ratings scores exactly five: the padded history
/// is fifty synthetic fives with weights `50..=1`, so the weighted sum is
/// five times the weight total.
pub proof fn lemma_score_of_empty_history()
    ensures
        padded_ratings(Seq::<i16>::empty()).len() == 50,
        weighted_sum(padded_ratings(Seq::<i16>::empty())) == 5 * triangular(50),
{
    let s = padded_ratings(Seq::<i16>::empty());
    assert(s =~= const_ratings(50, 5));
    lemma_wsum_const(50, 5, 50);
    assert(triangular(0) == 0);
}

/// A courier with a full history of 149 fives still falls under the top-up
/// rule, which appends one synthetic rating of one at the lowest weight, so
/// the score lands a hair under five: the weighted sum over the 150 padded
/// ratings is `5 * triangular(150) - 4`.
pub proof fn lemma_score_of_capped_history()
    ensures
        padded_ratings(const_ratings(149, 5)).len() == 150,
        weighted_sum(padded_ratings(const_ratings(149, 5))) == 5 * triangular(150) - 4,
{
    let hist = const_ratings(149, 5);
    let pad = const_ratings(1, 1);
    assert(padded_ratings(hist) == hist + pad);
    assert((hist + pad).len() == 150);
    lemma_wsum_concat(hist, pad, 150);
    lemma_wsum_const(149, 5, 150);
    lemma_wsum_const(1, 1, 1);
    assert(triangular(1) == 1);
    assert(triangular(0) == 0);
}

/// A courier with 120 hist fives gets 30 synthetic ones appended, and those
/// take exactly the 30 lowest weights `30..=1`: the weighted sum over the
/// 150 padded ratings is `5 * (triangular(150) - triangular(30)) +
/// triangular(30)`.
pub proof fn lemma_score_of_partial_history()
    ensures
        padded_ratings(const_ratings(120, 5)).len() == 150,
        weighted_sum(padded_ratings(const_ratings(120, 5))) == 5 * (triangular(150) - triangular(
            30,
        )) + triangular(30),
{
    let hist = const_ratings(120, 5);
    let pad = const_ratings(30, 1);
    assert(padded_ratings(hist) == hist + pad);
    assert((hist + pad).len() == 150);
    lemma_wsum_concat(hist, pad, 150);
    lemma_wsum_const(120, 5, 150);
    lemma_wsum_const(30, 1, 30);
    assert(triangular(0) == 0);
}

// ---------------------------------------------------------------------------
// Executable aggregation
// ---------------------------------------------------------------------------

/// The weighted score of one rating history: pads it by the smoothing rule,
/// then sums rating times positional weight, newest first.
pub fn weighted_score(ratings: &Vec<i16>) -> (r: WeightedScore)
    requires
        ratings@.len() <= 149,
        all_ratings_in_range(ratings@),
    ensures
        r.score_num == weighted_sum(padded_ratings(ratings@)),
        r.score_den == triangular(padded_ratings(ratings@).len() as int),
        r.score_den > 0,
{
    let n0 = ratings.len();
    let mut combined: Vec<i16> = Vec::new();
    let mut i: usize = 0;
    while i < n0
        invariant
            n0 == ratings@.len(),
            0 <= i <= n0,
            combined@ == ratings@.take(i as int),
        decreases n0 - i,
    {
        combined.push(ratings[i]);
        proof {
            assert(ratings@.take(i as int).push(ratings@[i as int]) =~= ratings@.take(i as int + 1));
        }
        i = i + 1;
    }
    proof {
        assert(ratings@.take(n0 as int) =~= ratings@);
    }
    if n0 <= 99 {
        let mut k: usize = 0;
        while k < 50
            invariant
                0 <= k <= 50,
                combined@ == ratings@ + const_ratings(k as int, 5),
            decreases 50 - k,
        {
            combined.push(5);
            proof {
                assert((ratings@ + const_ratings(k as int, 5)).push(5) =~= ratings@ + const_ratings(
                    k as int + 1,
                    5,
                ));
            }
            k = k + 1;
        }
    } else {
        let target = 150 - n0;
        let mut k: usize = 0;
        while k < target
            invariant
                target == 150 - n0,
                100 <= n0 <= 149,
                n0 == ratings@.len(),
                0 <= k <= target,
                combined@ == ratings@ + const_ratings(k as int, 1),
            decreases target - k,
        {
            combined.push(1);
            proof {
                assert((ratings@ + const_ratings(k as int, 1)).push(1) =~= ratings@ + const_ratings(
                    k as int + 1,
                    1,
                ));
            }
            k = k + 1;
        }
    }
    proof {
        assert(combined@ == padded_ratings(ratings@));
        assert(all_ratings_in_range(combined@)) by {
            assert forall|t: int| 0 <= t < combined@.len() implies 1 <= #[trigger] combined@[t]
                <= 5 by {
                if t < ratings@.len() {
                    assert(combined@[t] == ratings@[t]);
                }
            }
        }
    }
    let n = combined.len();
    let mut acc: u64 = 0;
    let mut j: usize = 0;
    proof {
        assert(combined@.take(0) =~= Seq::<i16>::empty());
    }
    while j < n
        invariant
            n == combined@.len(),
            50 <= n <= 150,
            all_ratings_in_range(combined@),
            0 <= j <= n,
            acc == wsum(combined@.take(j as int), n as int),
            acc <= 750 * j,
        decreases n - j,
    {
        let x = combined[j];
        let w = n - j;
        proof {
            crate::rating::lemma_wsum_take_step(combined@, n as int, j as int);
            assert(1 <= x <= 5);
            assert((x as int) * (w as int) <= 750) by (nonlinear_arith)
                requires
                    1 <= x <= 5,
                    0 <= w <= 150,
            ;
            assert((x as int) * (w as int) >= 0) by (nonlinear_arith)
                requires
                    1 <= x <= 5,
                    0 <= w,
            ;
        }
        acc = acc + (x as u64) * (w as u64);
        j = j + 1;
    }
    proof {
        assert(combined@.take(n as int) =~= combined@);
    }
    proof {
        assert(50 <= n <= 150);
        assert((n as int) * (n as int + 1) <= 150 * 151) by (nonlinear_arith)
            requires
                0 <= n as int <= 150,
        ;
    }
    let den = (n as u64) * (n as u64 + 1) / 2;
    proof {
        lemma_triangular_doubled(n as int);
        assert(den as int == triangular(n as int));
        assert(triangular(n as int) >= n as int) by {
            lemma_triangular_doubled(n as int);
            assert(2 * triangular(n as int) == (n as int) * (n as int + 1));
            assert((n as int) * (n as int + 1) >= 2 * (n as int)) by (nonlinear_arith)
                requires
                    n as int >= 1,
            ;
        }
    }
    WeightedScore { score_num: acc, score_den: den }
}

/// A courier's current reputation: the weighted score of the most recent
/// rating history the store holds for it.
pub fn count_average_rating(store: &Store, courier_uuid: u128) -> (r: WeightedScore)
    requires
        store@.wf(),
    ensures
        exists|h: Seq<i16>|
            {
                &&& #[trigger] is_recent_rating_history(store@.orders, courier_uuid, h)
                &&& r.score_num == weighted_sum(padded_ratings(h))
                &&& r.score_den == triangular(padded_ratings(h).len() as int)
            },
        r.score_den > 0,
{
    let ratings = get_courier_rating(store, courier_uuid);
    proof {
        assert(all_ratings_in_range(ratings@));
    }
    let score = weighted_score(&ratings);
    proof {
        assert(is_recent_rating_history(store@.orders, courier_uuid, ratings@) && score.score_num
            == weighted_sum(padded_ratings(ratings@)) && score.score_den == triangular(
            padded_ratings(ratings@).len() as int,
        ));
    }
    score
}

/// Computes the courier's refreshed reputation score, addressed to the
/// courier; the caller is expected to push it to the matching service.
pub fn update_courier_rating(store: &Store, courier_uuid: u128) -> (r: RatingUpdate)
    requires
        store@.wf(),
    ensures
        r.courier_uuid == courier_uuid,
        exists|h: Seq<i16>|
            {
                &&& #[trigger] is_recent_rating_history(store@.orders, courier_uuid, h)
                &&& r.score.score_num == weighted_sum(padded_ratings(h))
                &&& r.score.score_den == triangular(padded_ratings(h).len() as int)
            },
        r.score.score_den > 0,
{
    let score = count_average_rating(store, courier_uuid);
    RatingUpdate { courier_uuid, score }
}

} // verus!
