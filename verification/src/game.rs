use vstd::prelude::*;
use crate::controller::Controller;
use crate::geometry::Rect;

verus! {

/// Lives a fresh game starts with.
pub const INITIAL_LIVES: u32 = 3;

/// Black holes (and planets) of the first level.
pub const INITIAL_BLACK_HOLE_COUNT: u32 = 3;

/// Points for shooting an enemy down.
pub const ENEMY_HIT_POINTS: u32 = 10;

/// Points for delivering a planet into a black hole.
pub const PLANET_DELIVERED_POINTS: u32 = 100;

/// The top-level phase of the game.
///
/// `Starting`, `Dead`, `Over` and `LevelComplete` wait for a confirm input;
/// `Running` runs the full per-frame simulation; `Dying` plays the player's
/// shatter animation and then settles into `Dead` or `Over` depending on the
/// lives left.
#[derive(Clone, Copy, Debug, PartialEq, Eq, Structural)]
pub enum GameState {
    Starting,
    Running,
    LevelComplete,
    Dying,
    Dead,
    Over,
}

/// The orchestrator's own state: phase, score and lives bookkeeping, the
/// per-frame snapshots of the player's rectangle and the open black holes'
/// rectangles, and the playfield dimensions.
pub struct Game {
    pub black_hole_count: u32,
    pub black_holes: Vec<Rect>,
    pub controller: Controller,
    pub high_score: u32,
    pub lives: u32,
    pub player: Rect,
    pub score: u32,
    pub screen_height: i32,
    pub screen_width: i32,
    pub state: GameState,
}

/// How the high score follows one observed score: it rises to the score
/// where the score surpasses it and stands otherwise.
pub open spec fn spec_high_score_step(high: int, score: int) -> int {
    if high >= score {
        high
    } else {
        score
    }
}

/// The high score that results from observing `scores` in order, starting
/// from zero: each observation takes one `spec_high_score_step`.
pub open spec fn spec_running_high(scores: Seq<int>) -> int
    decreases scores.len(),
{
    if scores.len() == 0 {
        0
    } else {
        spec_high_score_step(spec_running_high(scores.drop_last()), scores.last())
    }
}

/// The high score always equals the largest score ever observed: stepping
/// the high score through a whole history dominates every score in it, never
/// goes below its starting zero, and is itself one of the observed scores
/// unless none ever rose above zero.
pub proof fn lemma_high_score_is_max_observed(scores: Seq<int>)
    ensures
        forall|i: int| 0 <= i < scores.len() ==> #[trigger] scores[i] <= spec_running_high(scores),
        spec_running_high(scores) >= 0,
        scores.len() > 0 ==> spec_running_high(scores) == 0
            || scores.contains(spec_running_high(scores)),
    decreases scores.len(),
{
    if scores.len() > 0 {
        let prefix = scores.drop_last();
        lemma_high_score_is_max_observed(prefix);
        let high = spec_running_high(scores);
        assert forall|i: int| 0 <= i < scores.len() implies #[trigger] scores[i] <= high by {
            if i < prefix.len() {
                assert(scores[i] == prefix[i]);
            }
        }
        if high != 0 {
            if spec_running_high(prefix) >= scores.last() {
                let j = choose|j: int| 0 <= j < prefix.len() && prefix[j] == high;
                assert(scores[j] == high);
            } else {
                assert(scores[scores.len() - 1] == high);
            }
        }
    }
}

/// Observing one more score never lowers the high score: the high score is
/// monotonically non-decreasing over the game's history.
pub proof fn lemma_high_score_monotone(scores: Seq<int>, score: int)
    ensures
        spec_running_high(scores.push(score))
            == spec_high_score_step(spec_running_high(scores), score),
        spec_running_high(scores.push(score)) >= spec_running_high(scores),
{
    assert(scores.push(score).drop_last() =~= scores);
    assert(scores.push(score).last() == score);
}

/// Add `increment` to the score and raise the high score to the new score
/// where it surpasses it.
pub fn update_score(score: u32, high_score: u32, increment: u32) -> (r: (u32, u32))
    requires
        score + increment <= u32::MAX,
    ensures
        r.0 == score + increment,
        r.1 == spec_high_score_step(high_score as int, r.0 as int),
{
    let new_score = score + increment;
    let new_high_score = if high_score >= new_score { high_score } else { new_score };
    (new_score, new_high_score)
}

impl Game {
    /// The orchestrator's invariant: a playfield to stand on, a high score
    /// that has kept up with the score, and valid stick snapshots.
    pub open spec fn wf(self) -> bool {
        &&& self.screen_width > 0
        &&& self.screen_height > 0
        &&& self.high_score >= self.score
        &&& self.controller.wf()
    }

    /// A fresh game on the given playfield, with the player's starting
    /// rectangle recorded.
    pub fn new(screen_width: i32, screen_height: i32, player: Rect) -> (g: Game)
        requires
            screen_width > 0,
            screen_height > 0,
        ensures
            g.wf(),
            g.state == GameState::Starting,
            g.score == 0,
            g.high_score == 0,
            g.lives == INITIAL_LIVES,
            g.black_hole_count == INITIAL_BLACK_HOLE_COUNT,
            g.black_holes@ == Seq::<Rect>::empty(),
            g.player == player,
            g.screen_width == screen_width,
            g.screen_height == screen_height,
            g.controller == Controller::new_spec(screen_width, screen_height),
    {
        Game {
            black_hole_count: INITIAL_BLACK_HOLE_COUNT,
            black_holes: Vec::new(),
            controller: Controller::new(screen_width, screen_height),
            high_score: 0,
            lives: INITIAL_LIVES,
            player,
            score: 0,
            screen_height,
            screen_width,
            state: GameState::Starting,
        }
    }

    /// Award points, saturating at the largest representable score, and keep
    /// the high score the maximum score ever reached.
    pub fn award(&mut self, points: u32)
        requires
            old(self).high_score >= old(self).score,
        ensures
            final(self).score == (if old(self).score + points <= u32::MAX {
                old(self).score + points
            } else {
                u32::MAX as int
            }),
            final(self).high_score == (if old(self).high_score >= final(self).score {
                old(self).high_score
            } else {
                final(self).score
            }),
            final(self).score >= old(self).score,
            final(self).high_score >= final(self).score,
            *final(self) == (Game {
                score: final(self).score,
                high_score: final(self).high_score,
                ..*old(self)
            }),
    {
        if self.score <= u32::MAX - points {
            let (s, h) = update_score(self.score, self.high_score, points);
            self.score = s;
            self.high_score = h;
        } else {
            self.score = u32::MAX;
            self.high_score = u32::MAX;
        }
    }
}

} // verus!
