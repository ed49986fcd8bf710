//! Score accounting: apples eaten, and a score weighted by the square of
//! the speed at which each apple was consumed.

use vstd::prelude::*;

use crate::snake::Speed;
use crate::Config;

verus! {

/// Apples eaten so far and the running score, in thousandths.
pub struct Score {
    pub n_apples: u32,
    pub score_milli: u64,
}

impl Default for Score {
    fn default() -> (s: Score)
        ensures
            s.n_apples == 0,
            s.score_milli == 0,
    {
        Score { n_apples: 0, score_milli: 0 }
    }
}

/// Score gained for one food item: the increment scaled by the square of
/// the speed in cell edges per second, kept in thousandths.
pub open spec fn score_gain_milli(increment: int, speed_milli: int) -> int {
    increment * speed_milli * speed_milli / 1000
}

/// On a food-eaten event: count the apples and add the speed-squared
/// weighted increment to the score, so faster consumption is worth
/// quadratically more.
pub fn increment_score(config: &Config, score: &mut Score, speed: &Speed)
    requires
        config.wf(),
        speed.wf(),
        old(score).n_apples + config.score_increment <= u32::MAX,
        old(score).score_milli + score_gain_milli(
            config.score_increment as int,
            speed.in_blocks_milli as int,
        ) <= u64::MAX,
    ensures
        final(score).n_apples == old(score).n_apples + config.score_increment,
        final(score).score_milli == old(score).score_milli + score_gain_milli(
            config.score_increment as int,
            speed.in_blocks_milli as int,
        ),
{
    score.n_apples = score.n_apples + config.score_increment;
    let s: u64 = speed.in_blocks();
    assert((config.score_increment as int) * s <= 100_000_000_000 && (
    config.score_increment as int) * s * s <= 10_000_000_000_000_000_000) by (nonlinear_arith)
        requires
            1 <= config.score_increment <= 1_000,
            0 <= s <= 100_000_000,
    ;
    let gain: u64 = (config.score_increment as u64) * s * s / 1000;
    proof {
        vstd::arithmetic::div_mod::lemma_div_pos_is_pos(
            (config.score_increment as int) * s * s,
            1000,
        );
    }
    score.score_milli = score.score_milli + gain;
}

} // verus!
