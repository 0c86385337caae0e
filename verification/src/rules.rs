//! The rules of a tick, as relations between the world before and after it.
//!
//! Where chance has a part (the jitter of a bounce, the aim of a new ball,
//! the boost of a new block), a rule says what holds for every outcome: it
//! asks for some jitter or aim within its bounds, and leaves the boosts open.

use crate::collision::{bounced, JITTER_MAX, JITTER_MIN};
use crate::entities::{launched_from, Ball, Block, Player, START_LIVES};
use crate::game::{Game, GameState, Input, HIT_BONUS, START_DIFFICULTY};
use crate::geometry::{Rect, Viewport};
use crate::level::level_built;
use vstd::prelude::*;

verus! {

/// Whether `post` is the world one tick after `pre`.
pub open spec fn ticked(pre: Game, input: Input, dt: u32, viewport: Viewport, post: Game) -> bool {
    match pre.state {
        GameState::Menu | GameState::Paused => post == if input.confirm_pressed {
            Game { state: GameState::Game, ..pre }
        } else {
            pre
        },
        GameState::Game => played(pre, input, dt, viewport, post),
        GameState::GameOver => if input.confirm_held {
            restarted(pre, viewport, post)
        } else {
            post == pre
        },
        GameState::Completed => if input.confirm_held {
            advanced(pre, viewport, post)
        } else {
            post == pre
        },
    }
}

/// Whether `post` is the world after a fresh start from `pre`: no score,
/// the first difficulty, three lives and a fresh level, in play.
pub open spec fn restarted(pre: Game, viewport: Viewport, post: Game) -> bool {
    &&& post.state == GameState::Game
    &&& post.score == 0
    &&& post.difficulty == START_DIFFICULTY
    &&& post.last_score == pre.last_score
    &&& post.debug == pre.debug
    &&& level_built(
        Player { lives: START_LIVES, ..pre.player },
        START_DIFFICULTY,
        viewport,
        post.player,
        post.balls@,
        post.blocks@,
    )
}

/// Whether `post` is the world at the start of the level after the one
/// completed in `pre`: one step more difficult, with the score and the
/// lives as they were, in play.
pub open spec fn advanced(pre: Game, viewport: Viewport, post: Game) -> bool {
    &&& post.state == GameState::Game
    &&& post.score == pre.score
    &&& post.difficulty == next_difficulty(pre.difficulty)
    &&& post.last_score == pre.last_score
    &&& post.debug == pre.debug
    &&& level_built(
        pre.player,
        next_difficulty(pre.difficulty),
        viewport,
        post.player,
        post.balls@,
        post.blocks@,
    )
}

/// The difficulty of the level after one of difficulty `difficulty`.
pub open spec fn next_difficulty(difficulty: i32) -> i32 {
    if difficulty < i32::MAX {
        (difficulty + 1) as i32
    } else {
        difficulty
    }
}

/// Whether `post` is the world one tick after the running game `pre`. The
/// debugging key first takes a block away. The balls that have fallen
/// below the viewport leave; if none is left, a life is lost and nothing moves. Otherwise the
/// balls that are left play a round.
pub open spec fn played(pre: Game, input: Input, dt: u32, viewport: Viewport, post: Game) -> bool {
    if balls_in_play(pre, viewport).len() == 0 {
        life_lost(pre, blocks_in_play(pre, input), viewport, post)
    } else {
        exists|paths: Seq<Seq<Ball>>, stages: Seq<Seq<Block>>, spawned: Seq<Ball>|
            #[trigger] round_played(pre, input, dt, viewport, paths, stages, spawned, post)
    }
}

/// The blocks that a tick of the running game starts with: those of the
/// world, less the one that the debugging key takes away.
pub open spec fn blocks_in_play(pre: Game, input: Input) -> Seq<Block> {
    thinned(pre.blocks@, pre.debug && input.remove_block)
}

/// The blocks after the debugging key took one away: all but the last.
pub open spec fn thinned(blocks: Seq<Block>, remove: bool) -> Seq<Block> {
    if remove && blocks.len() > 0 {
        blocks.drop_last()
    } else {
        blocks
    }
}

/// The balls that a tick of the running game starts with: those of the
/// world that have not fallen below the viewport.
pub open spec fn balls_in_play(pre: Game, viewport: Viewport) -> Seq<Ball> {
    pre.balls@.filter(still_in_play(viewport))
}

/// Which balls are still in play on a viewport: those whose top edge is
/// not below its bottom edge.
pub open spec fn still_in_play(viewport: Viewport) -> spec_fn(Ball) -> bool {
    |ball: Ball| ball.rect.y <= viewport.height
}

/// Whether `post` is the world after the last ball of `pre` fell, with
/// `blocks` left: a life is gone; with the last life the game is over and
/// keeps the score of that moment as the last score; otherwise the level is
/// built anew and the game pauses.
pub open spec fn life_lost(pre: Game, blocks: Seq<Block>, viewport: Viewport, post: Game) -> bool {
    &&& post.debug == pre.debug
    &&& post.score == pre.score
    &&& post.difficulty == pre.difficulty
    &&& if pre.player.lives == 1 {
        &&& post.state == GameState::GameOver
        &&& post.last_score == pre.score
        &&& post.player == Player { lives: 0, ..pre.player }
        &&& post.balls@.len() == 0
        &&& post.blocks@ == blocks
    } else {
        &&& post.state == GameState::Paused
        &&& post.last_score == pre.last_score
        &&& level_built(
            Player { lives: (pre.player.lives - 1) as i32, ..pre.player },
            pre.difficulty,
            viewport,
            post.player,
            post.balls@,
            post.blocks@,
        )
    }
}

/// Whether `post` is the world after the round `paths`, `stages` of the
/// balls through the blocks in play, with `spawned` the balls that
/// fallen blocks left: the score has grown by the hits, the blocks without
/// a life are gone, the new balls follow the old, the paddle has moved, and
/// the level is completed if no block is left.
pub open spec fn round_played(
    pre: Game,
    input: Input,
    dt: u32,
    viewport: Viewport,
    paths: Seq<Seq<Ball>>,
    stages: Seq<Seq<Block>>,
    spawned: Seq<Ball>,
    post: Game,
) -> bool {
    let balls = balls_in_play(pre, viewport);
    let blocks = blocks_in_play(pre, input);
    &&& is_round(
        balls,
        pre.player.rect,
        blocks,
        dt,
        pre.debug && input.slow_motion,
        viewport,
        paths,
        stages,
    )
    &&& post.score == score_after(
        pre.score as int,
        balls.len() as int,
        round_hits(paths, stages, balls.len() as int),
    )
    &&& post.blocks@ == stages.last().filter(is_alive())
    &&& spawned_from(stages.last().filter(leaves_a_ball()), viewport, spawned)
    &&& post.balls@ == balls_after(paths) + spawned
    &&& post.player == pre.player.updated(dt, input.left, input.right, viewport)
    &&& post.state == if post.blocks@.len() == 0 {
        GameState::Completed
    } else if input.confirm_pressed {
        GameState::Paused
    } else {
        GameState::Game
    }
    &&& post.last_score == pre.last_score
    &&& post.difficulty == pre.difficulty
    &&& post.debug == pre.debug
}

/// Whether `paths` and `stages` are a round of the balls, taken in order:
/// `paths[i]` is the turn of ball `i`, `stages[i]` are the blocks as that
/// ball finds them, and the last stage are the blocks after the last ball.
pub open spec fn is_round(
    balls: Seq<Ball>,
    paddle: Rect,
    blocks: Seq<Block>,
    dt: u32,
    slow: bool,
    viewport: Viewport,
    paths: Seq<Seq<Ball>>,
    stages: Seq<Seq<Block>>,
) -> bool {
    &&& paths.len() == balls.len()
    &&& stages.len() == balls.len() + 1
    &&& stages[0] == blocks
    &&& forall|i: int|
        0 <= i < balls.len() ==> {
            &&& ball_turn(balls[i], paddle, stages[i], dt, slow, viewport, #[trigger] paths[i])
            &&& stages[i + 1] == worn(stages[i], paths[i])
        }
}

/// Whether `path` is the turn of a ball in a round: the ball moves for the
/// tick, meets the paddle, and then takes its course through the blocks.
pub open spec fn ball_turn(
    before: Ball,
    paddle: Rect,
    blocks: Seq<Block>,
    dt: u32,
    slow: bool,
    viewport: Viewport,
    path: Seq<Ball>,
) -> bool {
    &&& is_course(path, blocks)
    &&& bounce_outcome(before.updated(dt, slow, viewport), paddle, path[0])
}

/// Whether `after` is how `before` may come away from `obstacle`: unchanged
/// where the two do not overlap, and bounced with some jitter within its
/// bounds where they do.
pub open spec fn bounce_outcome(before: Ball, obstacle: Rect, after: Ball) -> bool {
    exists|jitter: int|
        JITTER_MIN <= jitter <= JITTER_MAX && (after.rect, after.velocity) == #[trigger] bounced(
            before.rect,
            before.velocity,
            obstacle,
            jitter,
        )
}

/// Whether `path` is a course of a ball through `blocks`, taken in order:
/// `path[k]` is the ball as it reaches block `k`, and the last entry is the
/// ball as it leaves the last block.
pub open spec fn is_course(path: Seq<Ball>, blocks: Seq<Block>) -> bool {
    &&& path.len() == blocks.len() + 1
    &&& forall|k: int|
        0 <= k < blocks.len() ==> bounce_outcome(#[trigger] path[k], blocks[k].rect, path[k + 1])
}

/// The blocks after a ball took the course `path` through them.
pub open spec fn worn(blocks: Seq<Block>, path: Seq<Ball>) -> Seq<Block> {
    Seq::new(blocks.len(), |k: int| worn_block(blocks[k], path[k]))
}

/// A block after a ball has passed it: one life poorer if the ball hit it.
pub open spec fn worn_block(block: Block, ball: Ball) -> Block {
    if ball.rect.overlaps(block.rect) {
        Block { lives: (block.lives - 1) as i32, ..block }
    } else {
        block
    }
}

/// The balls after a round: each as it leaves the last block of its course.
pub open spec fn balls_after(paths: Seq<Seq<Ball>>) -> Seq<Ball> {
    Seq::new(paths.len(), |i: int| paths[i].last())
}

/// How many of the first `upto` blocks a ball hit on the course `path`.
pub open spec fn hits_on(path: Seq<Ball>, blocks: Seq<Block>, upto: int) -> int
    decreases upto,
{
    if upto <= 0 {
        0
    } else {
        hits_on(path, blocks, upto - 1) + if path[upto - 1].rect.overlaps(blocks[upto - 1].rect) {
            1int
        } else {
            0int
        }
    }
}

/// How many block hits the first `upto` balls of a round made.
pub open spec fn round_hits(paths: Seq<Seq<Ball>>, stages: Seq<Seq<Block>>, upto: int) -> int
    decreases upto,
{
    if upto <= 0 {
        0
    } else {
        round_hits(paths, stages, upto - 1) + hits_on(
            paths[upto - 1],
            stages[upto - 1],
            stages[upto - 1].len() as int,
        )
    }
}

/// The score after `hits` block hits in a tick that began with `balls`
/// balls in play: each hit is worth `HIT_BONUS` for each of those balls.
pub open spec fn score_after(score: int, balls: int, hits: int) -> int {
    saturated(score + HIT_BONUS * balls * hits)
}

/// A score that stops at the largest number it can hold.
pub open spec fn saturated(score: int) -> int {
    if score > u64::MAX {
        u64::MAX as int
    } else {
        score
    }
}

/// Which blocks stay: those with a life left.
pub open spec fn is_alive() -> spec_fn(Block) -> bool {
    |block: Block| block.lives > 0
}

/// Which blocks leave a ball behind: those with a boost that have just lost
/// their last life.
pub open spec fn leaves_a_ball() -> spec_fn(Block) -> bool {
    |block: Block| block.lives == 0 && block.boost
}

/// Whether `spawned` are the balls that the blocks `sources` leave behind:
/// one for each, in order, launched from the centre of its block.
pub open spec fn spawned_from(sources: Seq<Block>, viewport: Viewport, spawned: Seq<Ball>) -> bool {
    &&& spawned.len() == sources.len()
    &&& forall|j: int|
        0 <= j < sources.len() ==> launched_from(
            sources[j].rect.center(),
            viewport,
            #[trigger] spawned[j],
        )
}

/// The score grows by `HIT_BONUS` for every hit and every ball: from
/// nothing, `hits` hits with `balls` balls in play make `hits * balls *
/// HIT_BONUS`, and hits made tick after tick with the same number of balls
/// add up, as long as the score can hold the sum.
pub proof fn lemma_score_counts_hits(score: int, balls: int, hits: int, more: int)
    requires
        0 <= score <= u64::MAX,
        0 <= balls,
        0 <= hits,
        0 <= more,
    ensures
        score_after(score, balls, 0) == score,
        hits * balls * HIT_BONUS <= u64::MAX ==> score_after(0, balls, hits) == hits * balls
            * HIT_BONUS,
        score_after(score_after(score, balls, hits), balls, more) == score_after(
            score,
            balls,
            hits + more,
        ),
{
    assert(HIT_BONUS * balls * hits == hits * balls * HIT_BONUS) by (nonlinear_arith);
    assert(HIT_BONUS * balls * (hits + more) == HIT_BONUS * balls * hits + HIT_BONUS * balls
        * more) by (nonlinear_arith);
    assert(HIT_BONUS * balls * hits >= 0 && HIT_BONUS * balls * more >= 0) by (nonlinear_arith)
        requires
            0 <= balls,
            0 <= hits,
            0 <= more,
    ;
    assert(HIT_BONUS * balls * 0 == 0) by (nonlinear_arith);
}

/// A running game ends exactly when its last ball falls with the last
/// life, and it then keeps the score of that moment as the last score. No
/// other tick touches the last score: not one of the running game, and not
/// the fresh start after the game is over.
pub proof fn lemma_last_score_is_kept(
    pre: Game,
    input: Input,
    dt: u32,
    viewport: Viewport,
    post: Game,
)
    requires
        pre.wf(),
        ticked(pre, input, dt, viewport, post),
    ensures
        (pre.state == GameState::Game && post.state == GameState::GameOver) <==> (pre.state
            == GameState::Game && balls_in_play(pre, viewport).len() == 0 && pre.player.lives == 1),
        post.last_score == if pre.state == GameState::Game && post.state == GameState::GameOver {
            pre.score
        } else {
            pre.last_score
        },
{
}

/// A round of the running game ends in a completed level exactly when it
/// leaves no block, however many balls are left.
pub proof fn lemma_level_completes_without_blocks(
    pre: Game,
    input: Input,
    dt: u32,
    viewport: Viewport,
    post: Game,
)
    requires
        pre.wf(),
        pre.state == GameState::Game,
        balls_in_play(pre, viewport).len() > 0,
        ticked(pre, input, dt, viewport, post),
    ensures
        post.state == GameState::Completed <==> post.blocks@.len() == 0,
{
}

/// Starting again after the game is over gives a world with no score, the
/// first difficulty, three lives, and a full grid of blocks with one life
/// each.
pub proof fn lemma_fresh_start(pre: Game, input: Input, dt: u32, viewport: Viewport, post: Game)
    requires
        pre.wf(),
        pre.state == GameState::GameOver,
        input.confirm_held,
        ticked(pre, input, dt, viewport, post),
    ensures
        post.state == GameState::Game,
        post.score == 0,
        post.difficulty == 1,
        post.player.lives == 3,
        post.blocks@.len() == 36,
        forall|i: int| 0 <= i < 36 ==> (#[trigger] post.blocks@[i]).lives == 1,
        post.balls@.len() == 1,
{
}

} // verus!
