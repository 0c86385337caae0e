//! The paddle, the balls and the blocks.

use crate::chance::roll;
use crate::fixed::{
    clamp_coord, clamped, lemma_floor_sqrt_exists, lemma_square_monotone, magnitude, travel,
    travelled, UNIT,
};
use crate::geometry::{lemma_component_within_length, Rect, Vec2, Viewport};
use vstd::prelude::*;

verus! {

/// The paddle's speed, in screen units per second.
pub const PLAYER_SPEED: i64 = 700;

/// A ball's speed, in screen units per second.
pub const BALL_SPEED: i64 = 300;

/// A ball's speed while slow motion is on.
pub const SLOW_BALL_SPEED: i64 = 10;

/// The width of a block, in sub-units.
pub const BLOCK_WIDTH: i64 = 120_000;

/// The height of a block, in sub-units.
pub const BLOCK_HEIGHT: i64 = 30_000;

/// The lives of a paddle at the start of a game, and of a block before the
/// level sets them.
pub const START_LIVES: i32 = 3;

/// The smallest horizontal speed, in thousandths, of a ball that does not
/// fall straight down.
pub const NEAR_VERTICAL: i64 = 200;

/// The bounds of the horizontal aim from which a new ball's direction is drawn.
pub const AIM_LIMIT: i32 = 1000;

/// The upper bound of the draw that decides on the boost of a new block;
/// the lower bound is zero.
pub const BOOST_ROLL_LIMIT: i32 = 1000;

/// A new block gets a boost when its draw falls below this: half of the time.
pub const BOOST_ROLL_SPLIT: i32 = 500;

/// The paddle's size on a viewport: a fifth and a twentieth of its width.
pub fn player_size(viewport: Viewport) -> (r: Vec2)
    requires
        viewport.wf(),
    ensures
        r.x == viewport.width / 5,
        r.y == viewport.width / 20,
{
    Vec2 { x: viewport.width / 5, y: viewport.width / 20 }
}

/// A ball's size on a viewport: a square of a fiftieth of its width.
pub fn ball_size(viewport: Viewport) -> (r: Vec2)
    requires
        viewport.wf(),
    ensures
        r.x == viewport.width / 50,
        r.y == viewport.width / 50,
{
    Vec2 { x: viewport.width / 50, y: viewport.width / 50 }
}

/// The size of every block.
pub fn block_size() -> (r: Vec2)
    ensures
        r.x == BLOCK_WIDTH,
        r.y == BLOCK_HEIGHT,
{
    Vec2 { x: BLOCK_WIDTH, y: BLOCK_HEIGHT }
}

/// Whether the value of the debug switch turns debugging on: it does so as
/// `true`, `1`, `on` or `yes`, in exactly this spelling, and as nothing else.
pub open spec fn turns_debug_on(value: Seq<char>) -> bool {
    ||| value =~= seq!['t', 'r', 'u', 'e']
    ||| value =~= seq!['1']
    ||| value =~= seq!['o', 'n']
    ||| value =~= seq!['y', 'e', 's']
}

/// Whether the value of the debug switch turns debugging on.
pub fn debug_enabled(value: &str) -> (on: bool)
    ensures
        on == turns_debug_on(value@),
{
    let n: usize = value.unicode_len();
    if n == 1 {
        value.get_char(0) == '1'
    } else if n == 2 {
        value.get_char(0) == 'o' && value.get_char(1) == 'n'
    } else if n == 3 {
        value.get_char(0) == 'y' && value.get_char(1) == 'e' && value.get_char(2) == 's'
    } else if n == 4 {
        value.get_char(0) == 't' && value.get_char(1) == 'r' && value.get_char(2) == 'u'
            && value.get_char(3) == 'e'
    } else {
        false
    }
}

/// The direction in which the paddle is steered: `-1` to the left, `1` to
/// the right, `0` where neither or both are asked for.
pub open spec fn steer(left: bool, right: bool) -> int {
    if left && !right {
        -1
    } else if right && !left {
        1
    } else {
        0
    }
}

/// The paddle.
#[derive(Clone, Copy, Debug, PartialEq, Eq, Structural)]
pub struct Player {
    pub rect: Rect,
    pub lives: i32,
}

impl Player {
    /// Whether the rectangle is well formed and the lives are not negative.
    pub open spec fn wf(self) -> bool {
        self.rect.wf() && self.lives >= 0
    }

    /// The paddle fitted to a viewport: its size follows the viewport's
    /// width, and it stands twice its height above the bottom edge. Its
    /// horizontal position stays.
    pub open spec fn resized(self, viewport: Viewport) -> Player {
        Player {
            rect: Rect {
                x: self.rect.x,
                y: (viewport.height - 2 * (viewport.width / 20)) as i64,
                w: (viewport.width / 5) as i64,
                h: (viewport.width / 20) as i64,
            },
            lives: self.lives,
        }
    }

    /// The paddle after a tick of `dt` microseconds: fitted to the
    /// viewport, moved by the steering at `PLAYER_SPEED`, and kept between
    /// the viewport's left and right edges.
    pub open spec fn updated(self, dt: u32, left: bool, right: bool, viewport: Viewport) -> Player {
        let fitted = self.resized(viewport);
        let room = viewport.width - fitted.rect.w;
        let x = self.rect.x + travelled(steer(left, right) * UNIT, dt as int, PLAYER_SPEED as int);
        Player {
            rect: Rect {
                x: (if x < 0 {
                    0
                } else if x > room {
                    room
                } else {
                    x
                }) as i64,
                ..fitted.rect
            },
            lives: self.lives,
        }
    }

    /// The paddle at the start of a session.
    pub open spec fn spec_new(viewport: Viewport) -> Player {
        Player {
            rect: Rect {
                x: (viewport.width / 2 - 2 * (viewport.width / 5)) as i64,
                y: (viewport.height - 2 * (viewport.width / 20)) as i64,
                w: (viewport.width / 5) as i64,
                h: (viewport.width / 20) as i64,
            },
            lives: START_LIVES,
        }
    }

    /// A paddle with three lives, sized for the viewport, twice its height
    /// above the bottom edge.
    #[verifier::when_used_as_spec(spec_new)]
    pub fn new(viewport: Viewport) -> (r: Player)
        requires
            viewport.wf(),
        ensures
            r == Player::spec_new(viewport),
            r.wf(),
    {
        let size = player_size(viewport);
        Player {
            rect: Rect {
                x: viewport.width / 2 - size.x * 2,
                y: viewport.height - size.y * 2,
                w: size.x,
                h: size.y,
            },
            lives: START_LIVES,
        }
    }

    /// Advances the paddle by a tick of `dt` microseconds: fits it to the
    /// viewport, moves it as it is steered, and keeps it inside the viewport.
    pub fn update(&mut self, dt: u32, left: bool, right: bool, viewport: Viewport)
        requires
            old(self).wf(),
            viewport.wf(),
        ensures
            *final(self) == old(self).updated(dt, left, right, viewport),
            final(self).wf(),
            final(self).rect.w == viewport.width / 5,
            final(self).rect.h == viewport.width / 20,
            0 <= final(self).rect.x <= viewport.width - final(self).rect.w,
    {
        let size = player_size(viewport);
        self.rect.w = size.x;
        self.rect.h = size.y;
        self.rect.y = viewport.height - self.rect.h * 2;
        let x_move: i64 = if left && !right {
            -1
        } else if right && !left {
            1
        } else {
            0
        };
        self.rect.x = self.rect.x + travel(x_move * UNIT, dt, PLAYER_SPEED);
        if self.rect.x < 0 {
            self.rect.x = 0;
        }
        if self.rect.x > viewport.width - self.rect.w {
            self.rect.x = viewport.width - self.rect.w;
        }
    }

    /// Whether the paddle is well formed.
    pub fn is_valid(&self) -> (ok: bool)
        ensures
            ok == self.wf(),
    {
        self.rect.is_valid() && self.lives >= 0
    }

    /// What to draw for the paddle: its rectangle, in white.
    pub fn draw(&self) -> (sprite: Sprite)
        ensures
            sprite == (Sprite { rect: self.rect, paint: Paint::White }),
    {
        Sprite { rect: self.rect, paint: Paint::White }
    }
}

/// A horizontal speed kept away from the vertical: one that is not zero is
/// at least `NEAR_VERTICAL` in magnitude.
pub open spec fn away_from_vertical(vx: int) -> int {
    if 0 < vx < NEAR_VERTICAL {
        NEAR_VERTICAL as int
    } else if -NEAR_VERTICAL < vx < 0 {
        -NEAR_VERTICAL as int
    } else {
        vx
    }
}

/// The velocity of a new ball aimed `aim` thousandths sideways for every
/// thousand downwards: that direction at length `UNIT`, then kept away from
/// the vertical, and not brought back to length `UNIT` after that.
pub open spec fn launch_velocity(aim: int) -> Vec2 {
    let direction = (Vec2 { x: aim as i64, y: UNIT }).normalized();
    Vec2 { x: away_from_vertical(direction.x as int) as i64, y: direction.y }
}

/// Whether `ball` is a ball that starts at `pos` with some aim within `AIM_LIMIT`.
pub open spec fn launched_from(pos: Vec2, viewport: Viewport, ball: Ball) -> bool {
    exists|aim: i32|
        -AIM_LIMIT <= aim <= AIM_LIMIT && ball == #[trigger] Ball::spec_aimed(pos, aim, viewport)
}

/// A ball.
#[derive(Clone, Copy, Debug, PartialEq, Eq, Structural)]
pub struct Ball {
    pub rect: Rect,
    pub velocity: Vec2,
}

impl Ball {
    /// Whether the rectangle is well formed and the velocity within the
    /// coordinate range.
    pub open spec fn wf(self) -> bool {
        self.rect.wf() && self.velocity.in_range()
    }

    /// The ball that starts at `pos` with the given aim.
    pub open spec fn spec_aimed(pos: Vec2, aim: i32, viewport: Viewport) -> Ball {
        Ball {
            rect: Rect::placed(
                pos.x as int,
                pos.y as int,
                viewport.width / 50,
                viewport.width / 50,
            ),
            velocity: launch_velocity(aim as int),
        }
    }

    /// The ball fitted to a viewport: a square of a fiftieth of its width.
    pub open spec fn resized(self, viewport: Viewport) -> Ball {
        Ball {
            rect: Rect {
                w: (viewport.width / 50) as i64,
                h: (viewport.width / 50) as i64,
                ..self.rect
            },
            velocity: self.velocity,
        }
    }

    /// The ball after a tick of `dt` microseconds: fitted to the viewport,
    /// moved along its velocity, turned back at the left, right and top
    /// edges of the viewport, and free to leave through the bottom, as far
    /// as the coordinate range goes.
    pub open spec fn updated(self, dt: u32, slow: bool, viewport: Viewport) -> Ball {
        let speed = if slow {
            SLOW_BALL_SPEED
        } else {
            BALL_SPEED
        };
        let side = viewport.width / 50;
        let room = viewport.width - side;
        let x = self.rect.x + travelled(self.velocity.x as int, dt as int, speed as int);
        let y = self.rect.y + travelled(self.velocity.y as int, dt as int, speed as int);
        Ball {
            rect: Rect {
                x: (if x < 0 {
                    0
                } else if x > room {
                    room
                } else {
                    x
                }) as i64,
                y: (if y < 0 {
                    0
                } else {
                    clamped(y)
                }) as i64,
                w: side as i64,
                h: side as i64,
            },
            velocity: Vec2 {
                x: (if x < 0 || x > room {
                    -self.velocity.x
                } else {
                    self.velocity.x as int
                }) as i64,
                y: (if y < 0 {
                    -self.velocity.y
                } else {
                    self.velocity.y as int
                }) as i64,
            },
        }
    }

    /// The ball that starts at `pos`, sized for the viewport, with the
    /// velocity that the aim gives. Unless the aim is zero, the ball does
    /// not fall near the vertical.
    #[verifier::when_used_as_spec(spec_aimed)]
    pub fn aimed(pos: Vec2, aim: i32, viewport: Viewport) -> (r: Ball)
        requires
            viewport.wf(),
        ensures
            r == Ball::spec_aimed(pos, aim, viewport),
            r.wf(),
            aim != 0 ==> magnitude(r.velocity.x as int) >= NEAR_VERTICAL,
            aim == 0 ==> r.velocity.x == 0,
            -UNIT <= r.velocity.x <= UNIT,
            0 <= r.velocity.y <= UNIT,
            -AIM_LIMIT <= aim <= AIM_LIMIT ==> r.velocity.y >= 707,
    {
        let mut vel = Vec2::new(aim as i64, UNIT).normalize();
        proof {
            lemma_launch_direction(aim as int);
        }
        if vel.x > 0 {
            if vel.x < NEAR_VERTICAL {
                vel.x = NEAR_VERTICAL;
            }
        }
        if vel.x < 0 {
            if vel.x > -NEAR_VERTICAL {
                vel.x = -NEAR_VERTICAL;
            }
        }
        let size = ball_size(viewport);
        Ball { rect: Rect::at(pos, size.x, size.y), velocity: vel }
    }

    /// A ball that starts at `pos` with an aim drawn at random.
    pub fn new(pos: Vec2, viewport: Viewport) -> (r: Ball)
        requires
            viewport.wf(),
        ensures
            launched_from(pos, viewport, r),
            r.wf(),
    {
        let aim: i32 = roll(-AIM_LIMIT, AIM_LIMIT);
        Ball::aimed(pos, aim, viewport)
    }

    /// Advances the ball by a tick of `dt` microseconds, at `BALL_SPEED` or,
    /// if `slow`, at `SLOW_BALL_SPEED`: fits it to the viewport, moves it, and
    /// turns it back at the left, right and top edges.
    pub fn update(&mut self, dt: u32, slow: bool, viewport: Viewport)
        requires
            old(self).wf(),
            viewport.wf(),
        ensures
            *final(self) == old(self).updated(dt, slow, viewport),
            final(self).wf(),
    {
        let speed: i64 = if slow {
            SLOW_BALL_SPEED
        } else {
            BALL_SPEED
        };
        let size = ball_size(viewport);
        self.rect.w = size.x;
        self.rect.h = size.y;
        self.rect.x = self.rect.x + travel(self.velocity.x, dt, speed);
        self.rect.y = clamp_coord(self.rect.y + travel(self.velocity.y, dt, speed));
        if self.rect.x < 0 {
            self.rect.x = 0;
            self.velocity.x = -self.velocity.x;
        }
        if self.rect.x > viewport.width - self.rect.w {
            self.rect.x = viewport.width - self.rect.w;
            self.velocity.x = -self.velocity.x;
        }
        if self.rect.y < 0 {
            self.rect.y = 0;
            self.velocity.y = -self.velocity.y;
        }
    }

    /// Whether the ball is well formed.
    pub fn is_valid(&self) -> (ok: bool)
        ensures
            ok == self.wf(),
    {
        self.rect.is_valid() && self.velocity.is_in_range()
    }

    /// What to draw for the ball: its rectangle, in plum.
    pub fn draw(&self) -> (sprite: Sprite)
        ensures
            sprite == (Sprite { rect: self.rect, paint: Paint::Plum }),
    {
        Sprite { rect: self.rect, paint: Paint::Plum }
    }
}

/// The direction of an aim leans to the side to which the aim leans, and
/// an aim within `AIM_LIMIT` gives a direction that points well downwards.
pub proof fn lemma_launch_direction(aim: int)
    requires
        i32::MIN <= aim <= i32::MAX,
    ensures
        aim > 0 ==> (Vec2 { x: aim as i64, y: UNIT }).normalized().x > 0,
        aim < 0 ==> (Vec2 { x: aim as i64, y: UNIT }).normalized().x < 0,
        aim == 0 ==> (Vec2 { x: aim as i64, y: UNIT }).normalized().x == 0,
        (Vec2 { x: aim as i64, y: UNIT }).normalized().y >= 0,
        -AIM_LIMIT <= aim <= AIM_LIMIT ==> (Vec2 { x: aim as i64, y: UNIT }).normalized().y >= 707,
{
    let v = Vec2 { x: aim as i64, y: UNIT };
    let n = aim * aim + 1_000_000;
    let len = v.length();
    let a = magnitude(aim);
    assert(a * a == aim * aim) by (nonlinear_arith)
        requires
            a == aim || a == -aim,
    ;
    assert(a * a >= 0) by (nonlinear_arith);
    assert(v.x == aim && v.y == 1000);
    assert(v.x * v.x + v.y * v.y == aim * aim + 1_000_000) by (nonlinear_arith)
        requires
            v.x == aim,
            v.y == 1000,
    ;
    lemma_floor_sqrt_exists(n);
    lemma_component_within_length(aim, 1000, len);
    // The length is at least a thousand,
    if len < 1000 {
        lemma_square_monotone(len + 1, 1000);
    }
    // and at most a thousand times the aim: the quotient does not vanish.
    if len > 1000 * a && a >= 1 {
        lemma_square_monotone(1000 * a + 1, len);
        assert((1000 * a + 1) * (1000 * a + 1) > a * a + 1_000_000) by (nonlinear_arith)
            requires
                a >= 1,
        ;
    }
    assert(a >= 1 ==> (a * 1000) / len >= 1) by (nonlinear_arith)
        requires
            len >= 1000,
            a >= 1 ==> len <= a * 1000,
    ;
    assert(0int / len == 0) by (nonlinear_arith)
        requires
            len >= 1000,
    ;
    // Within the limit the length stays below 1415.
    if -AIM_LIMIT <= aim <= AIM_LIMIT {
        assert(a * a <= 1_000_000) by (nonlinear_arith)
            requires
                0 <= a <= 1000,
        ;
        if len >= 1415 {
            lemma_square_monotone(1415, len);
        }
        assert(1_000_000int / len >= 707) by (nonlinear_arith)
            requires
                1000 <= len <= 1414,
        ;
    }
    assert(0 <= 1_000_000int / len <= 1000) by (nonlinear_arith)
        requires
            len >= 1000,
    ;
}

/// The colours in which the presentation paints: one for the paddle, one
/// for the balls, and ten bands for the blocks.
#[derive(Clone, Copy, Debug, PartialEq, Eq, Structural)]
pub enum Paint {
    White,
    Plum,
    Red,
    Yellow,
    Green,
    Rose,
    Navy,
    Gold,
    Black,
    Scarlet,
    Indigo,
    Gray,
}

/// What the presentation is to draw for an entity: a rectangle and its paint.
#[derive(Clone, Copy, Debug, PartialEq, Eq, Structural)]
pub struct Sprite {
    pub rect: Rect,
    pub paint: Paint,
}

/// The colour band of a block with the given lives: one band for each of
/// one to nine lives, and gray for every other number.
pub open spec fn band_of(lives: int) -> Paint {
    if lives == 1 {
        Paint::Red
    } else if lives == 2 {
        Paint::Yellow
    } else if lives == 3 {
        Paint::Green
    } else if lives == 4 {
        Paint::Rose
    } else if lives == 5 {
        Paint::Navy
    } else if lives == 6 {
        Paint::Gold
    } else if lives == 7 {
        Paint::Black
    } else if lives == 8 {
        Paint::Scarlet
    } else if lives == 9 {
        Paint::Indigo
    } else {
        Paint::Gray
    }
}

/// A block.
#[derive(Clone, Copy, Debug, PartialEq, Eq, Structural)]
pub struct Block {
    pub rect: Rect,
    pub lives: i32,
    pub boost: bool,
}

impl Block {
    /// Whether the rectangle is well formed.
    pub open spec fn wf(self) -> bool {
        self.rect.wf()
    }

    /// The block at `pos` whose boost the roll `chance` decides.
    pub open spec fn spec_rolled(pos: Vec2, chance: i32) -> Block {
        Block {
            rect: Rect::placed(pos.x as int, pos.y as int, BLOCK_WIDTH as int, BLOCK_HEIGHT as int),
            lives: START_LIVES,
            boost: chance < BOOST_ROLL_SPLIT,
        }
    }

    /// The block at `pos` with three lives, boosted if `chance` is below
    /// `BOOST_ROLL_SPLIT`.
    #[verifier::when_used_as_spec(spec_rolled)]
    pub fn rolled(pos: Vec2, chance: i32) -> (r: Block)
        ensures
            r == Block::spec_rolled(pos, chance),
            r.wf(),
    {
        let size = block_size();
        Block {
            rect: Rect::at(pos, size.x, size.y),
            lives: START_LIVES,
            boost: chance < BOOST_ROLL_SPLIT,
        }
    }

    /// A block at `pos` with three lives and a boost decided at random.
    pub fn new(pos: Vec2) -> (r: Block)
        ensures
            r.rect == Rect::placed(pos.x as int, pos.y as int, BLOCK_WIDTH as int, BLOCK_HEIGHT as int),
            r.lives == START_LIVES,
            r.wf(),
    {
        let chance: i32 = roll(0, BOOST_ROLL_LIMIT);
        Block::rolled(pos, chance)
    }

    /// Sets the lives.
    pub fn with_lives(&mut self, lives: i32)
        ensures
            *final(self) == (Block { lives, ..*old(self) }),
    {
        self.lives = lives;
    }

    /// Whether the block is well formed.
    pub fn is_valid(&self) -> (ok: bool)
        ensures
            ok == self.wf(),
    {
        self.rect.is_valid()
    }

    /// What to draw for the block: its rectangle, in the band of its lives.
    pub fn draw(&self) -> (sprite: Sprite)
        ensures
            sprite == (Sprite { rect: self.rect, paint: band_of(self.lives as int) }),
    {
        let paint = match self.lives {
            1 => Paint::Red,
            2 => Paint::Yellow,
            3 => Paint::Green,
            4 => Paint::Rose,
            5 => Paint::Navy,
            6 => Paint::Gold,
            7 => Paint::Black,
            8 => Paint::Scarlet,
            9 => Paint::Indigo,
            _ => Paint::Gray,
        };
        Sprite { rect: self.rect, paint }
    }
}

/// A ball that has just been launched falls straight down or well off the
/// vertical: its horizontal speed is zero or at least `NEAR_VERTICAL`. It
/// is zero only for an aim of exactly zero.
pub proof fn lemma_launch_keeps_off_vertical(pos: Vec2, viewport: Viewport, ball: Ball)
    requires
        launched_from(pos, viewport, ball),
    ensures
        ball.velocity.x == 0 || magnitude(ball.velocity.x as int) >= NEAR_VERTICAL,
        forall|aim: i32|
            aim != 0 ==> magnitude(
                (#[trigger] Ball::spec_aimed(pos, aim, viewport)).velocity.x as int,
            ) >= NEAR_VERTICAL,
{
    assert forall|aim: i32| true implies {
        let vx = (#[trigger] Ball::spec_aimed(pos, aim, viewport)).velocity.x;
        (aim != 0 ==> magnitude(vx as int) >= NEAR_VERTICAL) && (aim == 0 ==> vx == 0)
    } by {
        lemma_launch_direction(aim as int);
    }
}

/// Fitting a paddle or a ball to the same viewport twice gives what
/// fitting it once gives, and an update leaves both at the fitted size
/// whatever their size was before: the sizes depend on the viewport alone,
/// and nothing adds up from tick to tick.
pub proof fn lemma_resize_idempotent(
    player: Player,
    ball: Ball,
    viewport: Viewport,
    dt: u32,
    left: bool,
    right: bool,
    slow: bool,
)
    requires
        viewport.wf(),
    ensures
        player.resized(viewport).resized(viewport) == player.resized(viewport),
        ball.resized(viewport).resized(viewport) == ball.resized(viewport),
        player.updated(dt, left, right, viewport).rect.w == player.resized(viewport).rect.w,
        player.updated(dt, left, right, viewport).rect.h == player.resized(viewport).rect.h,
        player.updated(dt, left, right, viewport).rect.y == player.resized(viewport).rect.y,
        ball.updated(dt, slow, viewport).rect.w == ball.resized(viewport).rect.w,
        ball.updated(dt, slow, viewport).rect.h == ball.resized(viewport).rect.h,
        player.updated(dt, left, right, viewport).resized(viewport) == player.updated(
            dt,
            left,
            right,
            viewport,
        ),
        ball.updated(dt, slow, viewport).resized(viewport) == ball.updated(dt, slow, viewport),
{
}

} // verus!
