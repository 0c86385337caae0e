//! The game: the world of one session, and the tick that advances it.

use crate::collision::resolve_collision;
use crate::entities::{launched_from, Ball, Block, Player, START_LIVES};
use crate::geometry::{Rect, Viewport};
use crate::level::{init, level_built};
use crate::rules::{
    ball_turn, balls_after, balls_in_play, blocks_in_play, bounce_outcome, hits_on, is_alive,
    is_course, is_round, leaves_a_ball, played, round_hits, round_played, spawned_from,
    still_in_play, ticked, worn, worn_block,
};
use vstd::prelude::*;

verus! {

/// The balls and blocks of a session never number more than this together:
/// a level starts with one ball and a full grid, and a ball is added only
/// for a block that leaves.
pub const CAPACITY: usize = 37;

/// What a block hit is worth for each ball in play.
pub const HIT_BONUS: u64 = 10;

/// The difficulty of the first level.
pub const START_DIFFICULTY: i32 = 1;

/// The phase of the game.
#[derive(Clone, Copy, Debug, PartialEq, Eq, Structural)]
pub enum GameState {
    Menu,
    Game,
    GameOver,
    Completed,
    Paused,
}

/// What the player asks for during one tick.
#[derive(Clone, Copy, Debug, PartialEq, Eq, Structural)]
pub struct Input {
    /// Move the paddle to the left, held.
    pub left: bool,
    /// Move the paddle to the right, held.
    pub right: bool,
    /// Start, pause or resume: pressed in this tick.
    pub confirm_pressed: bool,
    /// Start again or go on to the next level: held.
    pub confirm_held: bool,
    /// Remove a block, held; heeded only while debugging.
    pub remove_block: bool,
    /// Slow the balls down, held; heeded only while debugging.
    pub slow_motion: bool,
}

/// What the presentation shows of the score and the lives.
#[derive(Clone, Copy, Debug, PartialEq, Eq, Structural)]
pub struct Hud {
    pub score: u64,
    pub lives: i32,
}

/// The world of one session.
#[derive(Clone, Debug, PartialEq, Eq)]
pub struct Game {
    pub state: GameState,
    pub player: Player,
    pub balls: Vec<Ball>,
    pub blocks: Vec<Block>,
    pub score: u64,
    /// The score at the moment the last life was lost.
    pub last_score: u64,
    pub difficulty: i32,
    /// Whether the debugging keys are heeded.
    pub debug: bool,
}

impl Game {
    /// Whether the world is one that a session can be in: every part within
    /// its range, no more balls and blocks than `CAPACITY`, every block
    /// alive, a difficulty of at least one, and a life left unless the game
    /// is over.
    pub open spec fn wf(self) -> bool {
        &&& self.player.wf()
        &&& self.balls@.len() + self.blocks@.len() <= CAPACITY
        &&& forall|i: int| 0 <= i < self.balls@.len() ==> (#[trigger] self.balls@[i]).wf()
        &&& forall|k: int| 0 <= k < self.blocks@.len() ==> (#[trigger] self.blocks@[k]).wf()
        &&& forall|k: int| 0 <= k < self.blocks@.len() ==> (#[trigger] self.blocks@[k]).lives >= 1
        &&& self.difficulty >= 1
        &&& self.state != GameState::GameOver ==> self.player.lives >= 1
    }

    /// A session at its start: in the menu, with a fresh level of the first
    /// difficulty and no score.
    pub fn new(viewport: Viewport, debug: bool) -> (game: Game)
        requires
            viewport.wf(),
        ensures
            game.wf(),
            game.state == GameState::Menu,
            game.score == 0,
            game.last_score == 0,
            game.difficulty == START_DIFFICULTY,
            game.debug == debug,
            level_built(
                Player::new(viewport),
                START_DIFFICULTY,
                viewport,
                game.player,
                game.balls@,
                game.blocks@,
            ),
    {
        let mut player = Player::new(viewport);
        let mut balls: Vec<Ball> = Vec::new();
        let mut blocks: Vec<Block> = Vec::new();
        init(&mut balls, &mut blocks, &mut player, START_DIFFICULTY, viewport);
        Game {
            state: GameState::Menu,
            player,
            balls,
            blocks,
            score: 0,
            last_score: 0,
            difficulty: START_DIFFICULTY,
            debug,
        }
    }

    /// Whether the world is well formed.
    pub fn is_valid(&self) -> (ok: bool)
        ensures
            ok == self.wf(),
    {
        if !self.player.is_valid() || self.difficulty < 1 {
            return false;
        }
        if self.state != GameState::GameOver && self.player.lives < 1 {
            return false;
        }
        if self.balls.len() > CAPACITY || self.blocks.len() > CAPACITY - self.balls.len() {
            return false;
        }
        let mut i: usize = 0;
        while i < self.balls.len()
            invariant
                i <= self.balls.len(),
                forall|j: int| 0 <= j < i ==> (#[trigger] self.balls@[j]).wf(),
            decreases self.balls.len() - i,
        {
            if !self.balls[i].is_valid() {
                assert(!self.balls@[i as int].wf());
                return false;
            }
            i = i + 1;
        }
        let mut k: usize = 0;
        while k < self.blocks.len()
            invariant
                k <= self.blocks.len(),
                forall|j: int| 0 <= j < k ==> (#[trigger] self.blocks@[j]).wf(),
                forall|j: int| 0 <= j < k ==> (#[trigger] self.blocks@[j]).lives >= 1,
            decreases self.blocks.len() - k,
        {
            if !self.blocks[k].is_valid() || self.blocks[k].lives < 1 {
                assert(!self.blocks@[k as int].wf() || self.blocks@[k as int].lives < 1);
                return false;
            }
            k = k + 1;
        }
        true
    }

    /// The score and the lives to show: those of the running game while it
    /// runs or pauses, the last score and no lives when it is over, and
    /// nothing in the menu and between levels.
    pub fn hud(&self) -> (shown: Option<Hud>)
        ensures
            shown == match self.state {
                GameState::Game | GameState::Paused => Some(
                    Hud { score: self.score, lives: self.player.lives },
                ),
                GameState::GameOver => Some(Hud { score: self.last_score, lives: 0 }),
                GameState::Menu | GameState::Completed => None,
            },
    {
        match self.state {
            GameState::Game | GameState::Paused => Some(
                Hud { score: self.score, lives: self.player.lives },
            ),
            GameState::GameOver => Some(Hud { score: self.last_score, lives: 0 }),
            GameState::Menu | GameState::Completed => None,
        }
    }

    /// Advances the session by one tick of `dt` microseconds.
    pub fn tick(&mut self, input: Input, dt: u32, viewport: Viewport)
        requires
            old(self).wf(),
            viewport.wf(),
        ensures
            ticked(*old(self), input, dt, viewport, *final(self)),
            final(self).wf(),
    {
        match self.state {
            GameState::Menu | GameState::Paused => {
                if input.confirm_pressed {
                    self.state = GameState::Game;
                }
            },
            GameState::Game => {
                self.play(input, dt, viewport);
            },
            GameState::GameOver => {
                if input.confirm_held {
                    self.score = 0;
                    self.difficulty = START_DIFFICULTY;
                    self.player.lives = START_LIVES;
                    init(
                        &mut self.balls,
                        &mut self.blocks,
                        &mut self.player,
                        START_DIFFICULTY,
                        viewport,
                    );
                    self.state = GameState::Game;
                }
            },
            GameState::Completed => {
                if input.confirm_held {
                    if self.difficulty < i32::MAX {
                        self.difficulty = self.difficulty + 1;
                    }
                    let difficulty: i32 = self.difficulty;
                    init(&mut self.balls, &mut self.blocks, &mut self.player, difficulty, viewport);
                    self.state = GameState::Game;
                }
            },
        }
    }

    /// One tick of the running game.
    fn play(&mut self, input: Input, dt: u32, viewport: Viewport)
        requires
            old(self).wf(),
            old(self).state == GameState::Game,
            viewport.wf(),
        ensures
            played(*old(self), input, dt, viewport, *final(self)),
            final(self).wf(),
    {
        if input.confirm_pressed {
            self.state = GameState::Paused;
        }
        if self.debug && input.remove_block {
            self.blocks.pop();
        }
        remove_fallen(&mut self.balls, viewport);
        assert(self.blocks@ == blocks_in_play(*old(self), input));
        assert(self.balls@ == balls_in_play(*old(self), viewport));
        if self.balls.len() == 0 {
            self.player.lives = self.player.lives - 1;
            if self.player.lives == 0 {
                self.last_score = self.score;
                self.state = GameState::GameOver;
            } else {
                self.state = GameState::Paused;
                let difficulty: i32 = self.difficulty;
                init(&mut self.balls, &mut self.blocks, &mut self.player, difficulty, viewport);
            }
            return ;
        }
        let count: usize = self.balls.len();
        let paddle = self.player.rect;
        let slow = self.debug && input.slow_motion;
        let (hits, paths, stages) = play_round(
            &mut self.balls,
            paddle,
            &mut self.blocks,
            dt,
            slow,
            viewport,
        );
        assert(HIT_BONUS * count * hits <= 10 * 37 * (37 * 37)) by (nonlinear_arith)
            requires
                0 <= count <= 37,
                0 <= hits <= 37 * 37,
        ;
        let gain: u64 = HIT_BONUS * (count as u64) * (hits as u64);
        self.score = self.score.saturating_add(gain);
        let spawned = settle(&mut self.balls, &mut self.blocks, viewport);
        self.player.update(dt, input.left, input.right, viewport);
        if self.blocks.len() == 0 {
            self.state = GameState::Completed;
        }
        assert(round_played(*old(self), input, dt, viewport, paths@, stages@, spawned@, *self));
    }
}

/// Takes out the balls that have fallen below the viewport.
fn remove_fallen(balls: &mut Vec<Ball>, viewport: Viewport)
    requires
        forall|i: int| 0 <= i < old(balls).len() ==> (#[trigger] old(balls)[i]).wf(),
    ensures
        final(balls)@ == old(balls)@.filter(still_in_play(viewport)),
        final(balls).len() <= old(balls).len(),
        forall|i: int| 0 <= i < final(balls).len() ==> (#[trigger] final(balls)[i]).wf(),
{
    let mut kept: Vec<Ball> = Vec::new();
    let mut i: usize = 0;
    while i < balls.len()
        invariant
            i <= balls.len(),
            kept@ == balls@.take(i as int).filter(still_in_play(viewport)),
            kept.len() <= i,
            forall|j: int| 0 <= j < balls.len() ==> (#[trigger] balls[j]).wf(),
            forall|j: int| 0 <= j < kept.len() ==> (#[trigger] kept[j]).wf(),
        decreases balls.len() - i,
    {
        let ball = balls[i];
        proof {
            assert(balls@.take(i + 1) =~= balls@.take(i as int).push(ball));
            balls@.take(i as int).lemma_filter_push(ball, still_in_play(viewport));
        }
        if ball.rect.y <= viewport.height {
            kept.push(ball);
        }
        i = i + 1;
    }
    assert(balls@.take(balls.len() as int) =~= balls@);
    *balls = kept;
}

/// Lets every ball take its turn: move, meet the paddle, and run through
/// the blocks. Returns the number of block hits, the turns and the stages.
fn play_round(
    balls: &mut Vec<Ball>,
    paddle: Rect,
    blocks: &mut Vec<Block>,
    dt: u32,
    slow: bool,
    viewport: Viewport,
) -> (r: (usize, Ghost<Seq<Seq<Ball>>>, Ghost<Seq<Seq<Block>>>))
    requires
        paddle.wf(),
        viewport.wf(),
        old(balls).len() <= CAPACITY,
        old(blocks).len() <= CAPACITY,
        forall|i: int| 0 <= i < old(balls).len() ==> (#[trigger] old(balls)[i]).wf(),
        forall|k: int|
            0 <= k < old(blocks).len() ==> (#[trigger] old(blocks)[k]).wf() && old(blocks)[k].lives
                >= 1,
    ensures
        is_round(old(balls)@, paddle, old(blocks)@, dt, slow, viewport, r.1@, r.2@),
        final(balls)@ == balls_after(r.1@),
        final(blocks)@ == r.2@.last(),
        r.0 == round_hits(r.1@, r.2@, old(balls).len() as int),
        r.0 <= CAPACITY * CAPACITY,
        final(balls).len() == old(balls).len(),
        final(blocks).len() == old(blocks).len(),
        forall|i: int| 0 <= i < final(balls).len() ==> (#[trigger] final(balls)[i]).wf(),
        forall|k: int| 0 <= k < final(blocks).len() ==> (#[trigger] final(blocks)[k]).wf(),
{
    let ghost balls0 = balls@;
    let ghost blocks0 = blocks@;
    let ghost mut paths: Seq<Seq<Ball>> = Seq::empty();
    let ghost mut stages: Seq<Seq<Block>> = seq![blocks@];
    let mut hits: usize = 0;
    let mut i: usize = 0;
    while i < balls.len()
        invariant
            paddle.wf(),
            viewport.wf(),
            i <= balls.len() == balls0.len() <= CAPACITY,
            blocks.len() == blocks0.len() <= CAPACITY,
            paths.len() == i,
            stages.len() == i + 1,
            stages[0] == blocks0,
            stages[i as int] == blocks@,
            forall|j: int|
                0 <= j < i ==> {
                    &&& ball_turn(balls0[j], paddle, stages[j], dt, slow, viewport, #[trigger] paths[j])
                    &&& stages[j + 1] == worn(stages[j], paths[j])
                    &&& balls[j] == paths[j].last()
                    &&& stages[j].len() == blocks0.len()
                },
            forall|j: int| i <= j < balls.len() ==> #[trigger] balls[j] == balls0[j],
            forall|j: int| 0 <= j < balls.len() ==> (#[trigger] balls[j]).wf(),
            forall|k: int|
                0 <= k < blocks.len() ==> (#[trigger] blocks[k]).wf() && blocks[k].lives >= 1 - i,
            hits == round_hits(paths, stages, i as int),
            hits <= i * CAPACITY,
        decreases balls.len() - i,
    {
        let mut ball = balls[i];
        ball.update(dt, slow, viewport);
        resolve_collision(&mut ball.rect, &mut ball.velocity, &paddle);
        let ghost found = blocks@;
        let (n, path) = strike(&mut ball, blocks);
        balls.set(i, ball);
        hits = hits + n;
        proof {
            let more_paths = paths.push(path@);
            let more_stages = stages.push(blocks@);
            lemma_round_hits_prefix(paths, stages, more_paths, more_stages, i as int);
            assert(more_stages[i as int] == found);
            assert(more_paths[i as int] == path@);
            assert(ball_turn(balls0[i as int], paddle, found, dt, slow, viewport, path@));
            assert forall|j: int| 0 <= j < i + 1 implies {
                &&& ball_turn(
                    balls0[j],
                    paddle,
                    more_stages[j],
                    dt,
                    slow,
                    viewport,
                    #[trigger] more_paths[j],
                )
                &&& more_stages[j + 1] == worn(more_stages[j], more_paths[j])
                &&& balls[j] == more_paths[j].last()
                &&& more_stages[j].len() == blocks0.len()
            } by {
                if j < i {
                    assert(more_paths[j] == paths[j]);
                    assert(more_stages[j] == stages[j]);
                    assert(more_stages[j + 1] == stages[j + 1]);
                }
            }
            paths = more_paths;
            stages = more_stages;
        }
        i = i + 1;
    }
    assert(balls@ =~= balls_after(paths));
    (hits, Ghost(paths), Ghost(stages))
}

/// Lets the ball meet every block in turn. Returns the number of blocks
/// that it hit, each of which loses a life, and the course that it took.
fn strike(ball: &mut Ball, blocks: &mut Vec<Block>) -> (r: (usize, Ghost<Seq<Ball>>))
    requires
        old(ball).wf(),
        forall|k: int|
            0 <= k < old(blocks).len() ==> (#[trigger] old(blocks)[k]).wf() && old(blocks)[k].lives
                > i32::MIN,
    ensures
        is_course(r.1@, old(blocks)@),
        r.1@[0] == *old(ball),
        r.1@.last() == *final(ball),
        final(blocks)@ == worn(old(blocks)@, r.1@),
        r.0 == hits_on(r.1@, old(blocks)@, old(blocks).len() as int),
        r.0 <= old(blocks).len(),
        final(ball).wf(),
        final(ball).rect.w == old(ball).rect.w,
        final(ball).rect.h == old(ball).rect.h,
{
    let ghost before = blocks@;
    let ghost mut path: Seq<Ball> = seq![*ball];
    let mut hits: usize = 0;
    let mut k: usize = 0;
    while k < blocks.len()
        invariant
            k <= blocks.len() == before.len(),
            ball.wf(),
            ball.rect.w == old(ball).rect.w,
            ball.rect.h == old(ball).rect.h,
            path.len() == k + 1,
            path[0] == *old(ball),
            path[k as int] == *ball,
            forall|j: int|
                0 <= j < k ==> bounce_outcome(#[trigger] path[j], before[j].rect, path[j + 1]),
            forall|j: int| 0 <= j < k ==> #[trigger] blocks[j] == worn_block(before[j], path[j]),
            forall|j: int| k <= j < before.len() ==> #[trigger] blocks[j] == before[j],
            forall|j: int|
                0 <= j < before.len() ==> (#[trigger] before[j]).wf() && before[j].lives > i32::MIN,
            hits == hits_on(path, before, k as int),
            hits <= k,
        decreases blocks.len() - k,
    {
        let mut block = blocks[k];
        let ghost reached = *ball;
        let hit = resolve_collision(&mut ball.rect, &mut ball.velocity, &block.rect);
        if hit {
            block.lives = block.lives - 1;
            blocks.set(k, block);
            hits = hits + 1;
        }
        proof {
            let longer = path.push(*ball);
            lemma_hits_on_prefix(path, longer, before, k as int);
            assert(bounce_outcome(reached, before[k as int].rect, *ball));
            assert(longer[k as int] == reached);
            assert(longer[k + 1] == *ball);
            assert forall|j: int| 0 <= j < k + 1 implies bounce_outcome(
                #[trigger] longer[j],
                before[j].rect,
                longer[j + 1],
            ) by {
                if j < k {
                    assert(longer[j] == path[j]);
                    assert(longer[j + 1] == path[j + 1]);
                }
            }
            path = longer;
        }
        k = k + 1;
    }
    assert(blocks@ =~= worn(before, path));
    (hits, Ghost(path))
}

/// Lets every block that has just lost its last life and carries a boost
/// leave a ball at its centre, and takes out the blocks without a life.
fn settle(balls: &mut Vec<Ball>, blocks: &mut Vec<Block>, viewport: Viewport) -> (spawned: Ghost<
    Seq<Ball>,
>)
    requires
        viewport.wf(),
        old(balls).len() + old(blocks).len() <= CAPACITY,
        forall|i: int| 0 <= i < old(balls).len() ==> (#[trigger] old(balls)[i]).wf(),
        forall|k: int| 0 <= k < old(blocks).len() ==> (#[trigger] old(blocks)[k]).wf(),
    ensures
        final(blocks)@ == old(blocks)@.filter(is_alive()),
        spawned_from(old(blocks)@.filter(leaves_a_ball()), viewport, spawned@),
        final(balls)@ == old(balls)@ + spawned@,
        final(balls).len() + final(blocks).len() <= old(balls).len() + old(blocks).len(),
        forall|i: int| 0 <= i < final(balls).len() ==> (#[trigger] final(balls)[i]).wf(),
        forall|k: int| 0 <= k < final(blocks).len() ==> (#[trigger] final(blocks)[k]).wf(),
        forall|k: int| 0 <= k < final(blocks).len() ==> (#[trigger] final(blocks)[k]).lives >= 1,
{
    let ghost balls0 = balls@;
    let ghost mut spawned: Seq<Ball> = Seq::empty();
    let mut kept: Vec<Block> = Vec::new();
    let mut k: usize = 0;
    proof {
        reveal(Seq::filter);
        assert(blocks@.take(0).filter(is_alive()) =~= Seq::<Block>::empty());
        assert(blocks@.take(0).filter(leaves_a_ball()) =~= Seq::<Block>::empty());
    }
    while k < blocks.len()
        invariant
            viewport.wf(),
            k <= blocks.len(),
            kept@ == blocks@.take(k as int).filter(is_alive()),
            spawned_from(blocks@.take(k as int).filter(leaves_a_ball()), viewport, spawned),
            balls@ == balls0 + spawned,
            balls.len() + kept.len() + (blocks.len() - k) <= balls0.len() + blocks.len() <= CAPACITY,
            forall|i: int| 0 <= i < balls.len() ==> (#[trigger] balls[i]).wf(),
            forall|j: int| 0 <= j < blocks.len() ==> (#[trigger] blocks[j]).wf(),
            forall|j: int| 0 <= j < kept.len() ==> (#[trigger] kept[j]).wf() && kept[j].lives >= 1,
        decreases blocks.len() - k,
    {
        let block = blocks[k];
        let ghost sources = blocks@.take(k as int).filter(leaves_a_ball());
        proof {
            assert(blocks@.take(k + 1) =~= blocks@.take(k as int).push(block));
            blocks@.take(k as int).lemma_filter_push(block, is_alive());
            blocks@.take(k as int).lemma_filter_push(block, leaves_a_ball());
        }
        if block.lives == 0 && block.boost {
            let ball = Ball::new(block.rect.center(), viewport);
            balls.push(ball);
            proof {
                let more = spawned.push(ball);
                let more_sources = sources.push(block);
                assert forall|j: int| 0 <= j < more_sources.len() implies launched_from(
                    more_sources[j].rect.center(),
                    viewport,
                    #[trigger] more[j],
                ) by {
                    if j < sources.len() {
                        assert(more[j] == spawned[j]);
                        assert(more_sources[j] == sources[j]);
                    }
                }
                assert(balls@ =~= balls0 + more);
                spawned = more;
            }
        }
        if block.lives > 0 {
            kept.push(block);
        }
        k = k + 1;
    }
    assert(blocks@.take(blocks.len() as int) =~= blocks@);
    *blocks = kept;
    Ghost(spawned)
}

/// The hits on a course depend only on the part of the course that was run.
proof fn lemma_hits_on_prefix(p: Seq<Ball>, q: Seq<Ball>, blocks: Seq<Block>, upto: int)
    requires
        forall|j: int| 0 <= j < upto ==> p[j] == q[j],
    ensures
        hits_on(p, blocks, upto) == hits_on(q, blocks, upto),
        0 <= hits_on(p, blocks, upto),
        upto >= 0 ==> hits_on(p, blocks, upto) <= upto,
    decreases upto,
{
    if upto > 0 {
        lemma_hits_on_prefix(p, q, blocks, upto - 1);
    }
}

/// The hits of a round depend only on the turns that were taken.
proof fn lemma_round_hits_prefix(
    p: Seq<Seq<Ball>>,
    s: Seq<Seq<Block>>,
    q: Seq<Seq<Ball>>,
    t: Seq<Seq<Block>>,
    upto: int,
)
    requires
        forall|j: int| 0 <= j < upto ==> p[j] == q[j] && s[j] == t[j],
    ensures
        round_hits(p, s, upto) == round_hits(q, t, upto),
    decreases upto,
{
    if upto > 0 {
        lemma_round_hits_prefix(p, s, q, t, upto - 1);
    }
}

} // verus!
