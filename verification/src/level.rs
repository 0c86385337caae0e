//! The level builder: a grid of blocks, the paddle in the middle, one ball above it.

use crate::entities::{
    ball_size, block_size, launched_from, Ball, Block, Player, BLOCK_HEIGHT, BLOCK_WIDTH,
};
use crate::fixed::quot;
use crate::geometry::{Rect, Vec2, Viewport};
use vstd::prelude::*;

verus! {

/// The blocks in a row of the grid.
pub const GRID_COLUMNS: i64 = 6;

/// The rows of the grid.
pub const GRID_ROWS: i64 = 6;

/// The blocks of a fresh level.
pub const BLOCK_COUNT: usize = 36;

/// The gap to the right of and below each block, in sub-units.
pub const PADDING: i64 = 5_000;

/// The distance of the grid from the top of the viewport, in sub-units.
pub const BOARD_TOP: i64 = 40_000;

/// The left edge of the grid, which is centred on the viewport. On a
/// viewport narrower than the grid it lies to the left of the viewport.
pub open spec fn board_left(viewport: Viewport) -> int {
    quot(viewport.width - (BLOCK_WIDTH + PADDING) * GRID_COLUMNS, 2)
}

/// The corner of the block that stands at place `i` of the grid, counted
/// row by row from the top left.
pub open spec fn block_corner(i: int, viewport: Viewport) -> Vec2 {
    Vec2 {
        x: (board_left(viewport) + (i % GRID_COLUMNS as int) * (BLOCK_WIDTH + PADDING)) as i64,
        y: (BOARD_TOP + (i / GRID_COLUMNS as int) * (BLOCK_HEIGHT + PADDING)) as i64,
    }
}

/// The paddle moved to the middle of the viewport, at the size it has.
pub open spec fn centered(player: Player, viewport: Viewport) -> Player {
    Player {
        rect: Rect { x: (viewport.width / 2 - player.rect.w / 2) as i64, ..player.rect },
        lives: player.lives,
    }
}

/// Where a level's ball starts: above the middle of the paddle, by the
/// paddle's height.
pub open spec fn ball_spawn(paddle: Rect, viewport: Viewport) -> Vec2 {
    Vec2 {
        x: (paddle.x + paddle.w / 2 - (viewport.width / 50) / 2) as i64,
        y: (paddle.y - paddle.h) as i64,
    }
}

/// Whether `player`, `balls` and `blocks` are a fresh level of the given
/// difficulty on the viewport, built around the paddle `before`: the paddle
/// centred, every place of the grid filled with a block of `difficulty`
/// lives, and one ball launched above the paddle.
/// Which blocks carry a boost and how the ball is aimed is left to chance.
pub open spec fn level_built(
    before: Player,
    difficulty: i32,
    viewport: Viewport,
    player: Player,
    balls: Seq<Ball>,
    blocks: Seq<Block>,
) -> bool {
    &&& player == centered(before, viewport)
    &&& blocks.len() == BLOCK_COUNT
    &&& forall|i: int|
        0 <= i < BLOCK_COUNT ==> {
            &&& (#[trigger] blocks[i]).rect == Rect {
                x: block_corner(i, viewport).x,
                y: block_corner(i, viewport).y,
                w: BLOCK_WIDTH,
                h: BLOCK_HEIGHT,
            }
            &&& blocks[i].lives == difficulty
        }
    &&& balls.len() == 1
    &&& launched_from(ball_spawn(player.rect, viewport), viewport, balls[0])
}

/// Builds a fresh level: empties `balls` and `blocks`, centres the paddle,
/// lays out the grid with `difficulty` lives in every block, and puts one
/// ball above the paddle.
pub fn init(
    balls: &mut Vec<Ball>,
    blocks: &mut Vec<Block>,
    player: &mut Player,
    difficulty: i32,
    viewport: Viewport,
)
    requires
        old(player).wf(),
        viewport.wf(),
    ensures
        level_built(*old(player), difficulty, viewport, *final(player), final(balls)@, final(blocks)@),
        final(player).wf(),
        forall|i: int| 0 <= i < final(blocks).len() ==> (#[trigger] final(blocks)[i]).wf(),
        final(balls)[0].wf(),
{
    balls.clear();
    blocks.clear();
    player.rect.x = viewport.width / 2 - player.rect.w / 2;

    let total_size = block_size().add(Vec2::new(PADDING, PADDING));
    let board_start_pos = Vec2::new((viewport.width - total_size.x * GRID_COLUMNS) / 2, BOARD_TOP);

    let mut i: i64 = 0;
    while i < GRID_COLUMNS * GRID_ROWS
        invariant
            0 <= i <= GRID_COLUMNS * GRID_ROWS,
            viewport.wf(),
            total_size.x == BLOCK_WIDTH + PADDING,
            total_size.y == BLOCK_HEIGHT + PADDING,
            board_start_pos.x == board_left(viewport),
            board_start_pos.y == BOARD_TOP,
            blocks.len() == i,
            balls.len() == 0,
            *player == centered(*old(player), viewport),
            player.wf(),
            forall|j: int|
                0 <= j < i ==> {
                    &&& (#[trigger] blocks[j]).rect == Rect {
                        x: block_corner(j, viewport).x,
                        y: block_corner(j, viewport).y,
                        w: BLOCK_WIDTH,
                        h: BLOCK_HEIGHT,
                    }
                    &&& blocks[j].lives == difficulty
                    &&& blocks[j].wf()
                },
        decreases GRID_COLUMNS * GRID_ROWS - i,
    {
        assert((i % GRID_COLUMNS) * total_size.x == (i % 6) * 125_000 && (i / GRID_COLUMNS)
            * total_size.y == (i / 6) * 35_000) by (nonlinear_arith)
            requires
                total_size.x == 125_000,
                total_size.y == 35_000,
                GRID_COLUMNS == 6,
        ;
        let block_x: i64 = (i % GRID_COLUMNS) * total_size.x;
        let block_y: i64 = (i / GRID_COLUMNS) * total_size.y;
        let mut block = Block::new(board_start_pos.add(Vec2::new(block_x, block_y)));
        block.with_lives(difficulty);
        blocks.push(block);
        i = i + 1;
    }
    let spawn = Vec2::new(
        player.rect.x + player.rect.w / 2 - ball_size(viewport).x / 2,
        player.rect.y - player.rect.h,
    );
    assert(spawn == ball_spawn(player.rect, viewport));
    balls.push(Ball::new(spawn, viewport));
}

} // verus!
