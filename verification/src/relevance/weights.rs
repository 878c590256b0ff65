//! The scorer: category counts become a score between 0 and 1 through
//! the category weights, each category counted at most three times.

use crate::relevance::config::CategoryWeight;
use crate::relevance::score::{Score, SCORE_LIMIT};
use crate::text::{str_eq, views};
use vstd::multiset::Multiset;
use vstd::prelude::*;

verus! {

/// No category counts more often than this.
pub const CATEGORY_CAP: usize = 3;

/// A count, capped at three.
pub open spec fn capped(count: nat) -> nat {
    if count > 3 {
        3
    } else {
        count
    }
}

/// The numerator over the first `n` weights: the sum of the capped count
/// of each weighted category times its weight.
pub open spec fn weighted_num(weights: Seq<CategoryWeight>, pool: Multiset<Seq<char>>, n: nat) -> nat
    decreases n,
{
    if n == 0 {
        0
    } else {
        weighted_num(weights, pool, (n - 1) as nat) + capped(pool.count(weights[n - 1].category@))
            * (weights[n - 1].weight as nat)
    }
}

/// The denominator over the first `n` weights: three times their sum.
pub open spec fn weighted_den(weights: Seq<CategoryWeight>, n: nat) -> nat
    decreases n,
{
    if n == 0 {
        0
    } else {
        weighted_den(weights, (n - 1) as nat) + 3 * (weights[n - 1].weight as nat)
    }
}

/// The weighted score of a pool of categories: numerator over
/// denominator, and 0 when no weight is configured or all are 0.
pub open spec fn weighted(weights: Seq<CategoryWeight>, pool: Multiset<Seq<char>>) -> Score {
    if weighted_den(weights, weights.len()) == 0 {
        Score::zero()
    } else {
        Score {
            num: weighted_num(weights, pool, weights.len()) as u128,
            den: weighted_den(weights, weights.len()) as u128,
        }
    }
}

/// The sums stay below the limit of the score, and the numerator never
/// exceeds the denominator.
pub proof fn lemma_weighted_bounds(weights: Seq<CategoryWeight>, pool: Multiset<Seq<char>>, n: nat)
    requires
        n <= weights.len(),
    ensures
        weighted_num(weights, pool, n) <= weighted_den(weights, n),
        weighted_den(weights, n) <= 3 * 0xffff_ffff * n,
    decreases n,
{
    if n > 0 {
        lemma_weighted_bounds(weights, pool, (n - 1) as nat);
        let w = weights[n - 1].weight;
        let c = capped(pool.count(weights[n - 1].category@));
        assert(c * w <= 3 * w) by (nonlinear_arith)
            requires
                c <= 3,
                w >= 0,
        ;
        assert(3 * 0xffff_ffff * (n - 1) + 3 * w <= 3 * 0xffff_ffff * n) by (nonlinear_arith)
            requires
                w <= 0xffff_ffff,
                n >= 1,
        ;
    }
}

/// The weighted score lies between 0 and 1.
pub proof fn lemma_weighted_in_unit_range(weights: Seq<CategoryWeight>, pool: Multiset<Seq<char>>)
    requires
        weights.len() <= usize::MAX,
    ensures
        weighted(weights, pool).in_unit_range(),
        weighted(weights, pool).den <= SCORE_LIMIT,
{
    lemma_weighted_bounds(weights, pool, weights.len());
    let n = weights.len();
    assert(3 * 0xffff_ffff * n <= 0x3_0000_0000_0000_0000_0000_0000) by (nonlinear_arith)
        requires
            n <= 0xffff_ffff_ffff_ffff,
    ;
}

/// How many of the observed categories equal `name`.
pub fn count_category(categories: &Vec<String>, name: &str) -> (r: usize)
    ensures
        r == views(categories@).to_multiset().count(name@),
{
    let mut r: usize = 0;
    let mut i: usize = 0;
    proof {
        let none = views(categories@).take(0);
        none.to_multiset_ensures();
        assert(!none.contains(name@));
    }
    while i < categories.len()
        invariant
            i <= categories.len(),
            r <= i,
            r == views(categories@).take(i as int).to_multiset().count(name@),
        decreases categories.len() - i,
    {
        proof {
            let before = views(categories@).take(i as int);
            let after = views(categories@).take(i + 1);
            assert(after =~= before.push(categories@[i as int]@));
            before.to_multiset_ensures();
        }
        if str_eq(categories[i].as_str(), name) {
            r += 1;
        }
        i += 1;
    }
    assert(views(categories@).take(categories@.len() as int) =~= views(categories@));
    r
}

/// Computes the score of the observed categories from the category
/// weights, each category capped at three occurrences.
pub fn weigh(weights: &Vec<CategoryWeight>, categories: &Vec<String>) -> (r: Score)
    ensures
        r == weighted(weights@, views(categories@).to_multiset()),
        r.in_unit_range(),
        r.den <= SCORE_LIMIT,
{
    let ghost pool = views(categories@).to_multiset();
    let mut num: u128 = 0;
    let mut den: u128 = 0;
    let mut i: usize = 0;
    while i < weights.len()
        invariant
            i <= weights.len(),
            pool == views(categories@).to_multiset(),
            num == weighted_num(weights@, pool, i as nat),
            den == weighted_den(weights@, i as nat),
        decreases weights.len() - i,
    {
        let count = count_category(categories, weights[i].category.as_str());
        let capped_count: u128 = if count > CATEGORY_CAP {
            CATEGORY_CAP as u128
        } else {
            count as u128
        };
        let w: u128 = weights[i].weight as u128;
        proof {
            lemma_weighted_bounds(weights@, pool, (i + 1) as nat);
            let n = (i + 1) as nat;
            assert(3 * 0xffff_ffff * n <= 0x3_0000_0000_0000_0000_0000_0000) by (nonlinear_arith)
                requires
                    n <= 0xffff_ffff_ffff_ffff,
            ;
            assert(capped_count * w <= 3 * w) by (nonlinear_arith)
                requires
                    capped_count <= 3,
                    w >= 0,
            ;
        }
        num = num + capped_count * w;
        den = den + 3 * w;
        i += 1;
    }
    proof {
        lemma_weighted_in_unit_range(weights@, pool);
    }
    if den == 0 {
        Score::zero()
    } else {
        Score { num, den }
    }
}

} // verus!
