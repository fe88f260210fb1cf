use vstd::prelude::*;

use crate::snake::{
    heading_after, next_x, next_y, snake_is_new, snake_moved, Block, Direction, Snake,
};

verus! {

/// Milliseconds that must accumulate before the snake advances on its own.
pub const MOVE_INTERVAL_MS: u64 = 100;

/// Milliseconds after a fatal collision before the game restarts itself.
pub const RESTART_COOLDOWN_MS: u64 = 1000;

/// Number of live foods the replenishment step tops the board up to.
pub const NUM_FOODS: usize = 3;

/// Life units taken from every food on each tick.
pub const FOOD_DECAY_STEP: u32 = 2;

/// Life a newly spawned food starts with (a full life, in thousandths).
pub const INIT_FOOD_LIFE: u32 = 1000;

/// Foods whose life has dropped below this are removed by the expiry step.
pub const FOOD_EXPIRY_THRESHOLD: u32 = 100;

/// A food item: a cell plus the decaying life left to it, in thousandths
/// of a full life.
#[derive(Debug, Clone, Copy)]
pub struct Food {
    pub x: i32,
    pub y: i32,
    pub life: u32,
}

/// Food `f` lies on the cell `(x, y)`.
pub open spec fn food_at(f: Food, x: int, y: int) -> bool {
    f.x == x && f.y == y
}

/// Some food of `foods` lies on the cell `(x, y)`.
pub open spec fn has_food_at(foods: Seq<Food>, x: int, y: int) -> bool {
    exists|i: int| 0 <= i < foods.len() && #[trigger] food_at(foods[i], x, y)
}

/// Cell `b` lies on the cell `(x, y)`.
pub open spec fn block_at(b: Block, x: int, y: int) -> bool {
    b.x == x && b.y == y
}

/// Some cell of `body` lies on the cell `(x, y)`.
pub open spec fn hits_body(body: Seq<Block>, x: int, y: int) -> bool {
    exists|i: int| 0 <= i < body.len() && #[trigger] block_at(body[i], x, y)
}

/// Cell `b` has room around it in machine range for one more step.
pub open spec fn cell_in_range(b: Block) -> bool {
    0 <= b.x <= i32::MAX - 1 && 0 <= b.y <= i32::MAX - 1
}

/// The walls occupy the outermost ring of the board: a cell on or past
/// that ring is fatal to enter.
pub open spec fn cell_blocked(width: int, height: int, x: int, y: int) -> bool {
    x <= 0 || x >= width - 1 || y <= 0 || y >= height - 1
}

/// The snake may take one step under heading `d`: the next head cell is
/// neither on a wall nor on any cell of the current body (the
/// soon-to-be-vacated tail included).
pub open spec fn step_safe(width: int, height: int, body: Seq<Block>, d: Direction) -> bool {
    let nx = next_x(body[0].x as int, d);
    let ny = next_y(body[0].y as int, d);
    !cell_blocked(width, height, nx, ny) && !hits_body(body, nx, ny)
}

/// The foods that survive the expiry step: those whose life is still at
/// or above the threshold, kept in their original order.
pub open spec fn expire_step(foods: Seq<Food>) -> Seq<Food>
    decreases foods.len(),
{
    if foods.len() == 0 {
        Seq::empty()
    } else if foods.last().life >= FOOD_EXPIRY_THRESHOLD {
        expire_step(foods.drop_last()).push(foods.last())
    } else {
        expire_step(foods.drop_last())
    }
}

/// A food's life after one decay tick: lowered by the fixed decrement,
/// clamped at zero.
pub open spec fn decayed_life(life: u32) -> u32 {
    if life >= FOOD_DECAY_STEP {
        (life - FOOD_DECAY_STEP) as u32
    } else {
        0
    }
}

/// Every food after the decay step: the same cell, one decrement less life.
pub open spec fn decay_step(foods: Seq<Food>) -> Seq<Food> {
    foods.map_values(|f: Food| Food { x: f.x, y: f.y, life: decayed_life(f.life) })
}

/// `post` is `pre` after the replenishment step: untouched when at least
/// the target number of foods is live, otherwise extended to exactly the
/// target with foods at full life. The cells of the new foods are drawn
/// at random, so nothing is said of them here.
pub open spec fn replenished(pre: Seq<Food>, post: Seq<Food>) -> bool {
    if pre.len() >= NUM_FOODS as int {
        post == pre
    } else {
        &&& post.len() == NUM_FOODS as int
        &&& post.take(pre.len() as int) == pre
        &&& forall|i: int| pre.len() <= i < post.len() ==> #[trigger] post[i].life == INIT_FOOD_LIFE
    }
}

/// One movement tick under heading override `dir`, from snake `s` and
/// foods `foods` on a `width` by `height` board. The override replaces
/// the heading first. When the step is safe the snake advances; if a
/// food lies on the new head cell, the first such food is removed and
/// the snake grows by one. When the step is unsafe the snake stays in
/// place (with the overridden heading) and the game is over.
pub open spec fn move_tick_rel(
    width: int,
    height: int,
    s: Snake,
    foods: Seq<Food>,
    dir: Option<Direction>,
    s2: Snake,
    foods2: Seq<Food>,
    over2: bool,
) -> bool {
    let d = heading_after(dir, s.moving_direction);
    let nx = next_x(s.body@[0].x as int, d);
    let ny = next_y(s.body@[0].y as int, d);
    if step_safe(width, height, s.body@, d) {
        &&& over2 == false
        &&& if has_food_at(foods, nx, ny) {
            &&& s2.moving_direction == d
            &&& s2.body@.len() == s.body@.len() + 1
            &&& s2.body@[0].x == nx && s2.body@[0].y == ny
            &&& s2.body@.skip(1) =~= s.body@
            &&& s2.last_removed_block == Some(s.body@.last())
            &&& exists|j: int|
                {
                    &&& 0 <= j < foods.len()
                    &&& #[trigger] food_at(foods[j], nx, ny)
                    &&& forall|k: int| 0 <= k < j ==> !food_at(foods[k], nx, ny)
                    &&& foods2 =~= foods.remove(j)
                }
        } else {
            &&& snake_moved(s, s2, dir)
            &&& foods2 == foods
        }
    } else {
        &&& over2 == true
        &&& s2.moving_direction == d
        &&& s2.body == s.body
        &&& s2.last_removed_block == s.last_removed_block
        &&& foods2 == foods
    }
}

/// The whole game state: the snake, the live foods, the board size, the
/// game-over flag and the time accumulated since the last movement tick.
pub struct Game {
    pub snake: Snake,
    pub foods: Vec<Food>,
    pub width: i32,
    pub height: i32,
    pub is_game_over: bool,
    pub waiting_time: u64,
}

impl Game {
    /// Board width in cells.
    pub open spec fn spec_width(self) -> int {
        self.width as int
    }

    /// Board height in cells.
    pub open spec fn spec_height(self) -> int {
        self.height as int
    }

    /// Milliseconds accumulated since the last movement tick, or since
    /// the last update while the game is over.
    pub open spec fn spec_waiting_time(self) -> int {
        self.waiting_time as int
    }

    /// The board and the snake are well formed: the board has positive
    /// size, the snake keeps at least its initial three cells, and every
    /// body cell has machine room for one more step.
    pub open spec fn wf_core(self) -> bool {
        &&& 1 <= self.spec_width() && 1 <= self.spec_height()
        &&& self.snake.body@.len() >= 3
        &&& forall|i: int|
            0 <= i < self.snake.body@.len() ==> #[trigger] cell_in_range(self.snake.body@[i])
    }

    /// The game state is well formed: the board and the snake are, and
    /// the accumulator never exceeds the restart cooldown.
    pub open spec fn wf(self) -> bool {
        &&& self.wf_core()
        &&& self.spec_waiting_time() <= RESTART_COOLDOWN_MS as int
    }
}

/// The playing half of one update, with `wt` the accumulator counting
/// `delta` and `mid` the foods as they stand after replenishment: foods
/// are topped up to the target, and once more than the move interval
/// has accumulated the snake takes one step and the accumulator resets.
pub open spec fn playing_tick_rel(pre: Game, post: Game, wt: int, mid: Seq<Food>) -> bool {
    &&& replenished(decay_step(expire_step(pre.foods@)), mid)
    &&& if wt > MOVE_INTERVAL_MS as int {
        &&& move_tick_rel(
            pre.spec_width(),
            pre.spec_height(),
            pre.snake,
            mid,
            None,
            post.snake,
            post.foods@,
            post.is_game_over,
        )
        &&& post.spec_waiting_time() == 0
    } else {
        &&& post.foods@ == mid
        &&& post.snake == pre.snake
        &&& post.is_game_over == false
        &&& post.spec_waiting_time() == wt
    }
}

/// One whole update by `delta` milliseconds, relating the state before,
/// `pre`, to the state after, `post`. Expired foods are removed first
/// and the rest decay, in every state. While the game is over the snake
/// and foods are otherwise frozen until the cooldown has elapsed, and
/// then the snake and the flag are reset (the foods are not). Otherwise
/// the foods are replenished and, once enough time has accumulated, the
/// snake takes one step.
pub open spec fn tick_rel(pre: Game, post: Game, delta: u32) -> bool {
    let wt = pre.spec_waiting_time() + delta;
    let foods1 = decay_step(expire_step(pre.foods@));
    &&& post.spec_width() == pre.spec_width()
    &&& post.spec_height() == pre.spec_height()
    &&& if pre.is_game_over {
        if wt > RESTART_COOLDOWN_MS as int {
            &&& snake_is_new(post.snake, 2, 2)
            &&& post.is_game_over == false
            &&& post.spec_waiting_time() == 0
            &&& post.foods@ == foods1
        } else {
            &&& post.snake == pre.snake
            &&& post.is_game_over == true
            &&& post.spec_waiting_time() == wt
            &&& post.foods@ == foods1
        }
    } else {
        exists|mid: Seq<Food>| #[trigger] playing_tick_rel(pre, post, wt, mid)
    }
}

/// Relies on rand::random: an arbitrary integer; nothing is promised of
/// it, so everything downstream holds for every outcome.
#[verifier::external_body]
fn random_coord() -> i32 {
    rand::random::<i32>()
}

impl Game {
    /// A fresh game on a `w` by `h` board: a new snake, no food, a
    /// zeroed accumulator, not over.
    pub fn new(w: i32, h: i32) -> (game: Game)
        requires
            1 <= w,
            1 <= h,
        ensures
            game.wf(),
            snake_is_new(game.snake, 2, 2),
            game.foods@.len() == 0,
            game.is_game_over == false,
            game.spec_waiting_time() == 0,
            game.spec_width() == w as int,
            game.spec_height() == h as int,
    {
        Game {
            snake: Snake::new(2, 2),
            waiting_time: 0,
            foods: Vec::new(),
            width: w,
            height: h,
            is_game_over: false,
        }
    }

    /// Board width in cells.
    pub fn width(&self) -> (w: i32)
        ensures
            w as int == self.spec_width(),
    {
        self.width
    }

    /// Board height in cells.
    pub fn height(&self) -> (h: i32)
        ensures
            h as int == self.spec_height(),
    {
        self.height
    }

    /// Reset the snake and the clock and clear the game-over flag; the
    /// foods are left as they stand.
    fn restart(&mut self)
        ensures
            snake_is_new(final(self).snake, 2, 2),
            final(self).spec_waiting_time() == 0,
            final(self).is_game_over == false,
            final(self).foods == old(self).foods,
            final(self).spec_width() == old(self).spec_width(),
            final(self).spec_height() == old(self).spec_height(),
    {
        self.snake = Snake::new(2, 2);
        self.waiting_time = 0;
        self.is_game_over = false;
    }

    /// Apply a direction intent from the input layer. `None` stands for
    /// an input with no direction and is ignored, as is any input while
    /// the game is over, or one that would reverse the snake onto
    /// itself. Any other direction forces a movement tick at once.
    pub fn key_pressed(&mut self, key: Option<Direction>)
        requires
            old(self).wf(),
        ensures
            final(self).wf(),
            old(self).is_game_over ==> *final(self) == *old(self),
            !old(self).is_game_over && key is None ==> *final(self) == *old(self),
            !old(self).is_game_over && (key matches Some(d)
                && d == old(self).snake.moving_direction.opposite_spec()) ==> *final(self)
                == *old(self),
            !old(self).is_game_over && (key matches Some(d)
                && d != old(self).snake.moving_direction.opposite_spec()) ==> ({
                &&& move_tick_rel(
                    old(self).spec_width(),
                    old(self).spec_height(),
                    old(self).snake,
                    old(self).foods@,
                    key,
                    final(self).snake,
                    final(self).foods@,
                    final(self).is_game_over,
                )
                &&& final(self).spec_waiting_time() == 0
                &&& final(self).spec_width() == old(self).spec_width()
                &&& final(self).spec_height() == old(self).spec_height()
            }),
    {
        if self.is_game_over {
            return;
        }

        if let Some(d) = key {
            if d == self.snake.head_direction().opposite() {
                return;
            }
            self.update_snake(Some(d));
        }
    }

    /// Advance the game by `delta_time` milliseconds.
    pub fn update(&mut self, delta_time: u32)
        requires
            old(self).wf(),
        ensures
            final(self).wf(),
            tick_rel(*old(self), *final(self), delta_time),
    {
        self.waiting_time = self.waiting_time + delta_time as u64;

        self.update_food_expired();
        self.update_food_life();

        if self.is_game_over {
            if self.waiting_time > RESTART_COOLDOWN_MS {
                self.restart();
            }
            return;
        }

        self.update_food();
        let ghost mid = self.foods@;

        if self.waiting_time > MOVE_INTERVAL_MS {
            self.update_snake(None);
        }

        proof {
            let wt = old(self).spec_waiting_time() + delta_time;
            assert(playing_tick_rel(*old(self), *self, wt, mid));
        }
    }

    /// Remove every food whose life has decayed below the threshold.
    pub fn update_food_expired(&mut self)
        ensures
            final(self).foods@ == expire_step(old(self).foods@),
            final(self).snake == old(self).snake,
            final(self).is_game_over == old(self).is_game_over,
            final(self).spec_waiting_time() == old(self).spec_waiting_time(),
            final(self).spec_width() == old(self).spec_width(),
            final(self).spec_height() == old(self).spec_height(),
    {
        let mut kept: Vec<Food> = Vec::new();
        let n = self.foods.len();
        for i in 0..n
            invariant
                n == self.foods@.len(),
                kept@ == expire_step(self.foods@.take(i as int)),
        {
            let f = self.foods[i];
            if f.life >= FOOD_EXPIRY_THRESHOLD {
                kept.push(f);
            }
            proof {
                assert(self.foods@.take(i as int + 1).drop_last() =~= self.foods@.take(i as int));
                assert(self.foods@.take(i as int + 1).last() == self.foods@[i as int]);
            }
        }
        proof {
            assert(self.foods@.take(n as int) =~= self.foods@);
        }
        self.foods = kept;
    }

    /// Lower every food's life by the decay step.
    fn update_food_life(&mut self)
        ensures
            final(self).foods@ == decay_step(old(self).foods@),
            final(self).snake == old(self).snake,
            final(self).is_game_over == old(self).is_game_over,
            final(self).spec_waiting_time() == old(self).spec_waiting_time(),
            final(self).spec_width() == old(self).spec_width(),
            final(self).spec_height() == old(self).spec_height(),
    {
        let mut out: Vec<Food> = Vec::new();
        let n = self.foods.len();
        for i in 0..n
            invariant
                n == self.foods@.len(),
                out@.len() == i,
                forall|j: int| 0 <= j < i ==> #[trigger] out@[j] == decay_step(self.foods@)[j],
        {
            let f = self.foods[i];
            let new_life = if f.life >= FOOD_DECAY_STEP {
                f.life - FOOD_DECAY_STEP
            } else {
                0
            };
            out.push(Food { x: f.x, y: f.y, life: new_life });
        }
        proof {
            assert(out@ =~= decay_step(self.foods@));
        }
        self.foods = out;
    }

    /// Top the live foods back up to the target with fresh food at full
    /// life, each on a cell drawn at random.
    fn update_food(&mut self)
        ensures
            replenished(old(self).foods@, final(self).foods@),
            final(self).snake == old(self).snake,
            final(self).is_game_over == old(self).is_game_over,
            final(self).spec_waiting_time() == old(self).spec_waiting_time(),
            final(self).spec_width() == old(self).spec_width(),
            final(self).spec_height() == old(self).spec_height(),
    {
        if self.foods.len() >= NUM_FOODS {
            return;
        }

        let start = self.foods.len();
        let insert_num = NUM_FOODS - start;
        let mut i: usize = 0;
        while i < insert_num
            invariant
                i <= insert_num,
                insert_num == NUM_FOODS - start,
                start == old(self).foods@.len(),
                self.foods@.len() == start + i,
                self.foods@.take(start as int) == old(self).foods@,
                forall|k: int|
                    start <= k < self.foods@.len() ==> #[trigger] self.foods@[k].life
                        == INIT_FOOD_LIFE,
                self.snake == old(self).snake,
                self.is_game_over == old(self).is_game_over,
                self.spec_waiting_time() == old(self).spec_waiting_time(),
                self.spec_width() == old(self).spec_width(),
                self.spec_height() == old(self).spec_height(),
            decreases insert_num - i,
        {
            let x = random_coord();
            let y = random_coord();
            self.foods.push(Food { x, y, life: INIT_FOOD_LIFE });
            i = i + 1;
            proof {
                assert(self.foods@.take(start as int) =~= old(self).foods@);
            }
        }
    }

    /// If the head lies on a food, remove that food (the first such in
    /// list order) and grow the snake by one cell.
    fn check_eating(&mut self)
        requires
            old(self).snake.body@.len() > 0,
            old(self).snake.last_removed_block is Some,
        ensures
            ({
                let hx = old(self).snake.body@[0].x as int;
                let hy = old(self).snake.body@[0].y as int;
                if has_food_at(old(self).foods@, hx, hy) {
                    &&& exists|j: int|
                        {
                            &&& 0 <= j < old(self).foods@.len()
                            &&& #[trigger] food_at(old(self).foods@[j], hx, hy)
                            &&& forall|k: int| 0 <= k < j ==> !food_at(old(self).foods@[k], hx, hy)
                            &&& final(self).foods@ =~= old(self).foods@.remove(j)
                        }
                    &&& (old(self).snake.last_removed_block matches Some(b) ==> final(self).snake.body@
                        =~= old(self).snake.body@.push(b))
                    &&& final(self).snake.moving_direction == old(self).snake.moving_direction
                    &&& final(self).snake.last_removed_block == old(self).snake.last_removed_block
                } else {
                    *final(self) == *old(self)
                }
            }),
            final(self).is_game_over == old(self).is_game_over,
            final(self).spec_waiting_time() == old(self).spec_waiting_time(),
            final(self).spec_width() == old(self).spec_width(),
            final(self).spec_height() == old(self).spec_height(),
    {
        let pos = self.snake.head_position();
        let n = self.foods.len();
        for i in 0..n
            invariant
                n == self.foods@.len(),
                pos.0 == self.snake.body@[0].x,
                pos.1 == self.snake.body@[0].y,
                forall|k: int|
                    0 <= k < i ==> !food_at(#[trigger] self.foods@[k], pos.0 as int, pos.1 as int),
                self.foods == old(self).foods,
                self.snake == old(self).snake,
                self.is_game_over == old(self).is_game_over,
                self.waiting_time == old(self).waiting_time,
                self.width == old(self).width,
                self.height == old(self).height,
        {
            if self.foods[i].x == pos.0 && self.foods[i].y == pos.1 {
                self.snake.increase_length();
                self.foods.remove(i);
                proof {
                    let hx = old(self).snake.body@[0].x as int;
                    let hy = old(self).snake.body@[0].y as int;
                    assert(food_at(old(self).foods@[i as int], hx, hy));
                }
                return;
            }
        }
        proof {
            let hx = old(self).snake.body@[0].x as int;
            let hy = old(self).snake.body@[0].y as int;
            assert forall|k: int| 0 <= k < old(self).foods@.len() implies !food_at(
                #[trigger] old(self).foods@[k],
                hx,
                hy,
            ) by {
                assert(!food_at(self.foods@[k], pos.0 as int, pos.1 as int));
            }
            assert(!has_food_at(old(self).foods@, hx, hy));
        }
    }

    /// Whether the next step along the current heading is safe: within
    /// the walls and off the snake's own body.
    fn check_snake_alive(&self) -> (alive: bool)
        requires
            self.snake.body@.len() > 0,
            cell_in_range(self.snake.body@[0]),
            1 <= self.spec_width(),
            1 <= self.spec_height(),
        ensures
            alive == step_safe(
                self.spec_width(),
                self.spec_height(),
                self.snake.body@,
                self.snake.moving_direction,
            ),
    {
        let head_pos = self.snake.head_position();

        let next_pos = match self.snake.head_direction() {
            Direction::Up => Block { x: head_pos.0, y: head_pos.1 - 1 },
            Direction::Down => Block { x: head_pos.0, y: head_pos.1 + 1 },
            Direction::Left => Block { x: head_pos.0 - 1, y: head_pos.1 },
            Direction::Right => Block { x: head_pos.0 + 1, y: head_pos.1 },
        };

        if next_pos.x >= self.width - 1 || next_pos.x <= 0 || next_pos.y >= self.height - 1
            || next_pos.y <= 0 {
            return false;
        }

        let body_len = self.snake.body.len();
        for i in 0..body_len
            invariant
                body_len == self.snake.body@.len(),
                next_pos.x as int == next_x(self.snake.body@[0].x as int, self.snake.moving_direction),
                next_pos.y as int == next_y(self.snake.body@[0].y as int, self.snake.moving_direction),
                forall|k: int|
                    0 <= k < i ==> !block_at(
                        self.snake.body@[k],
                        next_pos.x as int,
                        next_pos.y as int,
                    ),
        {
            if next_pos.is_equal(&self.snake.body[i]) {
                proof {
                    assert(block_at(self.snake.body@[i as int], next_pos.x as int, next_pos.y as int));
                }
                return false;
            }
        }

        true
    }

    /// One movement tick: apply the heading override, advance the snake
    /// when the next step is safe and let it eat, otherwise end the
    /// game; the accumulator resets either way.
    fn update_snake(&mut self, dir: Option<Direction>)
        requires
            old(self).wf_core(),
            !old(self).is_game_over,
        ensures
            final(self).wf(),
            move_tick_rel(
                old(self).spec_width(),
                old(self).spec_height(),
                old(self).snake,
                old(self).foods@,
                dir,
                final(self).snake,
                final(self).foods@,
                final(self).is_game_over,
            ),
            final(self).spec_waiting_time() == 0,
            final(self).spec_width() == old(self).spec_width(),
            final(self).spec_height() == old(self).spec_height(),
    {
        let ghost pre = *old(self);
        let ghost d = heading_after(dir, old(self).snake.moving_direction);

        if let Some(dd) = dir {
            self.snake.moving_direction = dd;
        }

        if self.check_snake_alive() {
            proof {
                assert(step_safe(pre.spec_width(), pre.spec_height(), pre.snake.body@, d));
            }
            self.snake.move_forward(dir);
            let ghost moved = self.snake;
            proof {
                let nx = next_x(pre.snake.body@[0].x as int, d);
                let ny = next_y(pre.snake.body@[0].y as int, d);
                assert(snake_moved(pre.snake, moved, dir));
                assert(!cell_blocked(pre.spec_width(), pre.spec_height(), nx, ny));
                assert(cell_in_range(moved.body@[0]));
                assert forall|k: int|
                    0 <= k < moved.body@.len() implies #[trigger] cell_in_range(
                    moved.body@[k],
                ) by {
                    if k >= 1 {
                        assert(moved.body@[k] == moved.body@.skip(1)[k - 1]);
                        assert(moved.body@[k] == pre.snake.body@[k - 1]);
                    }
                }
            }
            self.check_eating();
            proof {
                let nx = next_x(pre.snake.body@[0].x as int, d);
                let ny = next_y(pre.snake.body@[0].y as int, d);
                if has_food_at(pre.foods@, nx, ny) {
                    assert(self.snake.body@ =~= moved.body@.push(pre.snake.body@.last()));
                    assert forall|k: int|
                        0 <= k < self.snake.body@.len() implies #[trigger] cell_in_range(
                        self.snake.body@[k],
                    ) by {
                        if 1 <= k < moved.body@.len() {
                            assert(self.snake.body@[k] == moved.body@[k]);
                            assert(moved.body@[k] == moved.body@.skip(1)[k - 1]);
                            assert(moved.body@[k] == pre.snake.body@[k - 1]);
                        } else if k == moved.body@.len() {
                            assert(self.snake.body@[k] == pre.snake.body@.last());
                        }
                    }
                    assert(self.snake.body@.skip(1) =~= pre.snake.body@) by {
                        assert forall|k: int|
                            0 <= k < self.snake.body@.skip(1).len() implies self.snake.body@.skip(
                            1,
                        )[k] == pre.snake.body@[k] by {
                            if k + 1 < moved.body@.len() {
                                assert(self.snake.body@[k + 1] == moved.body@[k + 1]);
                                assert(moved.body@[k + 1] == moved.body@.skip(1)[k]);
                                assert(moved.body@[k + 1] == pre.snake.body@.drop_last()[k]);
                            } else {
                                assert(self.snake.body@[k + 1] == pre.snake.body@.last());
                            }
                        }
                    }
                } else {
                    assert(snake_moved(pre.snake, self.snake, dir));
                }
            }
        } else {
            self.is_game_over = true;
        }
        self.waiting_time = 0;
    }
}

/// Food collection: when the step ahead of the head is safe and some
/// food lies on the cell the head is about to enter, one movement tick
/// removes a food lying there and grows the snake by one cell, and the
/// new body holds that cell exactly once.
pub proof fn lemma_food_collection(
    width: int,
    height: int,
    s: Snake,
    foods: Seq<Food>,
    dir: Option<Direction>,
    s2: Snake,
    foods2: Seq<Food>,
    over2: bool,
)
    requires
        s.body@.len() > 0,
        step_safe(width, height, s.body@, heading_after(dir, s.moving_direction)),
        has_food_at(
            foods,
            next_x(s.body@[0].x as int, heading_after(dir, s.moving_direction)),
            next_y(s.body@[0].y as int, heading_after(dir, s.moving_direction)),
        ),
        move_tick_rel(width, height, s, foods, dir, s2, foods2, over2),
    ensures
        over2 == false,
        s2.body@.len() == s.body@.len() + 1,
        foods2.len() == foods.len() - 1,
        block_at(
            s2.body@[0],
            next_x(s.body@[0].x as int, heading_after(dir, s.moving_direction)),
            next_y(s.body@[0].y as int, heading_after(dir, s.moving_direction)),
        ),
        forall|i: int|
            1 <= i < s2.body@.len() ==> !block_at(
                #[trigger] s2.body@[i],
                next_x(s.body@[0].x as int, heading_after(dir, s.moving_direction)),
                next_y(s.body@[0].y as int, heading_after(dir, s.moving_direction)),
            ),
{
    let d = heading_after(dir, s.moving_direction);
    let nx = next_x(s.body@[0].x as int, d);
    let ny = next_y(s.body@[0].y as int, d);
    assert forall|i: int| 1 <= i < s2.body@.len() implies !block_at(
        #[trigger] s2.body@[i],
        nx,
        ny,
    ) by {
        assert(s2.body@[i] == s2.body@.skip(1)[i - 1]);
        assert(s2.body@[i] == s.body@[i - 1]);
        if block_at(s2.body@[i], nx, ny) {
            assert(block_at(s.body@[i - 1], nx, ny));
            assert(hits_body(s.body@, nx, ny));
        }
    };
}

/// Helper: the expiry step never adds food.
pub proof fn lemma_expire_len(foods: Seq<Food>)
    ensures
        expire_step(foods).len() <= foods.len(),
    decreases foods.len(),
{
    if foods.len() > 0 {
        lemma_expire_len(foods.drop_last());
    }
}

/// Helper: every food that survives the expiry step has at least the
/// threshold life.
pub proof fn lemma_expire_elems(foods: Seq<Food>)
    ensures
        forall|i: int|
            0 <= i < expire_step(foods).len() ==> #[trigger] expire_step(foods)[i].life
                >= FOOD_EXPIRY_THRESHOLD,
    decreases foods.len(),
{
    if foods.len() > 0 {
        lemma_expire_elems(foods.drop_last());
        let inner = expire_step(foods.drop_last());
        if foods.last().life >= FOOD_EXPIRY_THRESHOLD {
            assert(expire_step(foods) == inner.push(foods.last()));
            assert forall|i: int|
                0 <= i < expire_step(foods).len() implies #[trigger] expire_step(foods)[i].life
                >= FOOD_EXPIRY_THRESHOLD by {
                if i < inner.len() {
                    assert(expire_step(foods)[i] == inner[i]);
                } else {
                    assert(expire_step(foods)[i] == foods.last());
                }
            }
        }
    }
}

/// Food replenishment: an update that stops short of a movement tick
/// brings the live food count back up to the target whenever it was
/// below it, and never leaves it below the target.
pub proof fn lemma_food_replenishment(pre: Game, post: Game, delta: u32)
    requires
        pre.wf(),
        !pre.is_game_over,
        tick_rel(pre, post, delta),
        pre.spec_waiting_time() + delta <= MOVE_INTERVAL_MS as int,
    ensures
        pre.foods@.len() < NUM_FOODS as int ==> post.foods@.len() == NUM_FOODS as int,
        post.foods@.len() >= NUM_FOODS as int,
{
    let wt = pre.spec_waiting_time() + delta;
    let foods1 = decay_step(expire_step(pre.foods@));
    let mid = choose|m: Seq<Food>| playing_tick_rel(pre, post, wt, m);
    lemma_expire_len(pre.foods@);
    assert(foods1.len() == expire_step(pre.foods@).len());
    assert(post.foods@ == mid);
}

/// Food expiry: when every food's life lies below the threshold, the
/// expiry step removes all of them.
pub proof fn lemma_expiry_removes_all(foods: Seq<Food>)
    requires
        forall|i: int| 0 <= i < foods.len() ==> #[trigger] foods[i].life < FOOD_EXPIRY_THRESHOLD,
    ensures
        expire_step(foods).len() == 0,
    decreases foods.len(),
{
    if foods.len() > 0 {
        assert(foods.last().life < FOOD_EXPIRY_THRESHOLD);
        assert(forall|i: int|
            0 <= i < foods.drop_last().len() ==> #[trigger] foods.drop_last()[i].life
                < FOOD_EXPIRY_THRESHOLD);
        lemma_expiry_removes_all(foods.drop_last());
    }
}

/// Food decay: over one update that performs no movement tick, every
/// food that survives expiry keeps its cell and loses exactly the fixed
/// decrement of life.
pub proof fn lemma_food_decay(pre: Game, post: Game, delta: u32)
    requires
        tick_rel(pre, post, delta),
        pre.is_game_over || pre.spec_waiting_time() + delta <= MOVE_INTERVAL_MS as int,
    ensures
        forall|i: int|
            0 <= i < expire_step(pre.foods@).len() ==> {
                let kept = expire_step(pre.foods@);
                &&& #[trigger] post.foods@[i].x == kept[i].x
                &&& post.foods@[i].y == kept[i].y
                &&& post.foods@[i].life == kept[i].life - FOOD_DECAY_STEP
            },
{
    let wt = pre.spec_waiting_time() + delta;
    let kept = expire_step(pre.foods@);
    let foods1 = decay_step(kept);
    lemma_expire_elems(pre.foods@);
    if pre.is_game_over {
        assert(post.foods@ == foods1);
    } else {
        let mid = choose|m: Seq<Food>| playing_tick_rel(pre, post, wt, m);
        assert(post.foods@ == mid);
        if foods1.len() < NUM_FOODS as int {
            assert forall|i: int| 0 <= i < kept.len() implies #[trigger] post.foods@[i]
                == foods1[i] by {
                assert(mid.take(foods1.len() as int)[i] == mid[i]);
            }
        }
    }
}

/// Restart: after a fatal collision the game restarts, with the snake
/// back in its initial three-cell configuration and the game-over flag
/// cleared, exactly once the cooldown has elapsed and not before.
pub proof fn lemma_restart(pre: Game, post: Game, delta: u32)
    requires
        pre.is_game_over,
        tick_rel(pre, post, delta),
    ensures
        pre.spec_waiting_time() + delta > RESTART_COOLDOWN_MS as int ==> snake_is_new(
            post.snake,
            2,
            2,
        ) && !post.is_game_over && post.spec_waiting_time() == 0,
        pre.spec_waiting_time() + delta <= RESTART_COOLDOWN_MS as int ==> post.is_game_over
            && post.snake == pre.snake && post.spec_waiting_time() == pre.spec_waiting_time()
            + delta,
{
}

} // verus!
