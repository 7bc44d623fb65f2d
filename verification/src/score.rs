//! The score of a run: the share of passed tests, scaled to a ceiling and
//! rounded to the nearest integer, halves upwards.

use vstd::arithmetic::div_mod::lemma_fundamental_div_mod;
use vstd::arithmetic::div_mod::lemma_fundamental_div_mod_converse;
use vstd::prelude::*;

verus! {

/// The number of passed tests that counts towards the score: never more
/// than the total, so that the score stays under its ceiling when a runner
/// declared fewer tests than it reported as passed.
pub open spec fn counted(passed: nat, total: nat) -> nat {
    if passed <= total {
        passed
    } else {
        total
    }
}

/// `counted / total * max_score`, rounded to the nearest integer with
/// halves rounded away from zero. With no tests at all the score is 0.
pub open spec fn rounded_share(passed: nat, total: nat, max_score: nat) -> nat {
    if total == 0 {
        0
    } else {
        (2 * counted(passed, total) * max_score + total) / (2 * total)
    }
}

/// What `rounded_share` is when the scaled count has been divided by the
/// total: the quotient, and one more where the remainder is at least half
/// of the total.
proof fn lemma_share_from_division(scaled: nat, total: nat, whole: nat, rest: nat)
    requires
        total > 0,
        rest < total,
        scaled == whole * total + rest,
    ensures
        (2 * scaled + total) / (2 * total) == if 2 * rest >= total {
            whole + 1
        } else {
            whole
        },
{
    let x = (2 * scaled + total) as int;
    let d = (2 * total) as int;
    assert(2 * (whole * total) == whole * (2 * total)) by (nonlinear_arith);
    if 2 * rest >= total {
        let r = (2 * rest - total) as int;
        assert((whole + 1) * d == whole * d + d) by (nonlinear_arith);
        assert(x == (whole + 1) * d + r);
        lemma_fundamental_div_mod_converse(x, d, (whole + 1) as int, r);
    } else {
        let r = (2 * rest + total) as int;
        assert(x == whole * d + r);
        lemma_fundamental_div_mod_converse(x, d, whole as int, r);
    }
}

/// The score is the integer nearest to the exact share: twice the distance
/// between `score * total` and `counted * max_score` is at most `total`,
/// and a share that lies exactly between two integers goes to the upper one.
pub proof fn lemma_score_is_nearest(passed: nat, total: nat, max_score: nat)
    requires
        total > 0,
    ensures
        2 * total * rounded_share(passed, total, max_score) <= 2 * counted(passed, total)
            * max_score + total,
        2 * counted(passed, total) * max_score + total < 2 * total * (rounded_share(
            passed,
            total,
            max_score,
        ) + 1),
{
    let x = (2 * counted(passed, total) * max_score + total) as int;
    let d = (2 * total) as int;
    lemma_fundamental_div_mod(x, d);
    assert(0 <= x % d < d) by (nonlinear_arith)
        requires
            d > 0,
    ;
    assert(d * (x / d + 1) == d * (x / d) + d) by (nonlinear_arith);
}

/// The score lies between 0 and the ceiling, is 0 when nothing passed and
/// is the ceiling when every test passed.
pub proof fn lemma_score_in_range(passed: nat, total: nat, max_score: nat)
    ensures
        rounded_share(passed, total, max_score) <= max_score,
        passed == 0 ==> rounded_share(passed, total, max_score) == 0,
        total > 0 && passed >= total ==> rounded_share(passed, total, max_score) == max_score,
{
    if total > 0 {
        let c = counted(passed, total);
        let s = rounded_share(passed, total, max_score);
        lemma_score_is_nearest(passed, total, max_score);
        assert(c * max_score <= total * max_score) by (nonlinear_arith)
            requires
                c <= total,
        ;
        assert(2 * c * max_score == 2 * (c * max_score)) by (nonlinear_arith);
        assert(2 * total * s == 2 * (total * s)) by (nonlinear_arith);
        assert(2 * total * (s + 1) == 2 * (total * s) + 2 * total) by (nonlinear_arith);
        if s > max_score {
            assert(total * s >= total * (max_score + 1)) by (nonlinear_arith)
                requires
                    s >= max_score + 1,
                    total > 0,
            ;
            assert(total * (max_score + 1) == total * max_score + total) by (nonlinear_arith);
        }
        if passed == 0 {
            assert(c * max_score == 0) by (nonlinear_arith)
                requires
                    c == 0,
            ;
            if s >= 1 {
                assert(total * s >= total) by (nonlinear_arith)
                    requires
                        s >= 1,
                        total > 0,
                ;
            }
        }
        if passed >= total {
            assert(c == total);
            if s < max_score {
                assert(total * (s + 1) <= total * max_score) by (nonlinear_arith)
                    requires
                        s + 1 <= max_score,
                        total > 0,
                ;
                assert(total * (s + 1) == total * s + total) by (nonlinear_arith);
            }
        }
    }
}

/// A larger count of passed tests never gives a smaller score.
pub proof fn lemma_score_is_monotonic(fewer: nat, more: nat, total: nat, max_score: nat)
    requires
        fewer <= more,
    ensures
        rounded_share(fewer, total, max_score) <= rounded_share(more, total, max_score),
{
    if total > 0 {
        let a = counted(fewer, total);
        let b = counted(more, total);
        let sa = rounded_share(fewer, total, max_score);
        let sb = rounded_share(more, total, max_score);
        lemma_score_is_nearest(fewer, total, max_score);
        lemma_score_is_nearest(more, total, max_score);
        assert(2 * a * max_score <= 2 * b * max_score) by (nonlinear_arith)
            requires
                a <= b,
        ;
        if sa > sb {
            assert(2 * total * sa >= 2 * total * (sb + 1)) by (nonlinear_arith)
                requires
                    sa >= sb + 1,
                    total > 0,
            ;
        }
    }
}

/// The score for `passed` tests out of `total` against the ceiling
/// `max_score`.
pub fn compute_score(passed: u64, total: u128, max_score: u32) -> (score: u32)
    ensures
        score == rounded_share(passed as nat, total as nat, max_score as nat),
        score <= max_score,
{
    proof {
        lemma_score_in_range(passed as nat, total as nat, max_score as nat);
    }
    if total == 0 {
        return 0;
    }
    let within: u128 = if (passed as u128) <= total {
        passed as u128
    } else {
        total
    };
    assert(within * max_score <= 0xffff_ffff_ffff_ffff * 0xffff_ffff) by (nonlinear_arith)
        requires
            within <= 0xffff_ffff_ffff_ffff,
            max_score <= 0xffff_ffff,
    ;
    let scaled: u128 = within * (max_score as u128);
    let whole: u128 = scaled / total;
    let rest: u128 = scaled % total;
    proof {
        lemma_fundamental_div_mod(scaled as int, total as int);
        assert(total * whole == whole * total) by (nonlinear_arith);
        lemma_share_from_division(scaled as nat, total as nat, whole as nat, rest as nat);
        assert(2 * (within * max_score) == 2 * within * max_score) by (nonlinear_arith);
    }
    if rest >= total - rest {
        (whole + 1) as u32
    } else {
        whole as u32
    }
}

} // verus!
