use vstd::prelude::*;

verus! {

/// One of the four headings the snake can move in, on a top-left-origin,
/// y-down grid: `Up` decreases y and `Down` increases it.
#[derive(Debug, Clone, Copy, PartialEq, Eq, Structural)]
pub enum Direction {
    Up,
    Down,
    Left,
    Right,
}

impl Direction {
    /// The heading that points the opposite way.
    pub open spec fn opposite_spec(self) -> Direction {
        match self {
            Direction::Up => Direction::Down,
            Direction::Down => Direction::Up,
            Direction::Left => Direction::Right,
            Direction::Right => Direction::Left,
        }
    }

    pub fn opposite(&self) -> (r: Direction)
        ensures
            r == self.opposite_spec(),
    {
        match *self {
            Direction::Up => Direction::Down,
            Direction::Down => Direction::Up,
            Direction::Left => Direction::Right,
            Direction::Right => Direction::Left,
        }
    }
}

/// Reversing a heading twice gives the heading back: `opposite` is a
/// total involution on the four directions.
pub proof fn lemma_opposite_involutive(d: Direction)
    ensures
        d.opposite_spec().opposite_spec() == d,
{
}

/// One grid cell, identified by its integer column `x` and row `y`.
#[derive(Debug, Clone, Copy, PartialEq, Eq, Structural)]
pub struct Block {
    pub x: i32,
    pub y: i32,
}

impl Block {
    /// Whether two cells have the same coordinates.
    pub fn is_equal(&self, block: &Block) -> (r: bool)
        ensures
            r == (self.x == block.x && self.y == block.y),
    {
        if self.x == block.x && self.y == block.y {
            return true;
        }
        false
    }
}

/// Column of the cell one step away from column `x` in heading `d`.
pub open spec fn next_x(x: int, d: Direction) -> int {
    match d {
        Direction::Left => x - 1,
        Direction::Right => x + 1,
        _ => x,
    }
}

/// Row of the cell one step away from row `y` in heading `d`.
pub open spec fn next_y(y: int, d: Direction) -> int {
    match d {
        Direction::Up => y - 1,
        Direction::Down => y + 1,
        _ => y,
    }
}

/// The heading that a move with override `dir` actually uses.
pub open spec fn heading_after(dir: Option<Direction>, current: Direction) -> Direction {
    match dir {
        Some(d) => d,
        None => current,
    }
}

/// The player-controlled segmented entity: an ordered body of cells,
/// head first, the current heading, and the cell most recently dropped
/// from the tail (kept so the snake can grow back after eating).
pub struct Snake {
    pub moving_direction: Direction,
    pub body: Vec<Block>,
    pub last_removed_block: Option<Block>,
}

/// Snake `s` is in the fixed starting configuration: three cells laid
/// out horizontally with the head at `(x + 2, y)`, heading `Right`,
/// with no cell dropped yet.
pub open spec fn snake_is_new(s: Snake, x: int, y: int) -> bool {
    &&& s.moving_direction == Direction::Right
    &&& s.body@.len() == 3
    &&& s.body@[0].x == x + 2 && s.body@[0].y == y
    &&& s.body@[1].x == x + 1 && s.body@[1].y == y
    &&& s.body@[2].x == x && s.body@[2].y == y
    &&& s.last_removed_block is None
}

/// Snake `post` is `pre` advanced one step under heading override `dir`:
/// the heading is replaced when an override is given, a new head cell is
/// pushed in front, and the old tail cell is dropped and recorded.
pub open spec fn snake_moved(pre: Snake, post: Snake, dir: Option<Direction>) -> bool {
    let d = heading_after(dir, pre.moving_direction);
    &&& post.moving_direction == d
    &&& post.body@.len() == pre.body@.len()
    &&& post.body@[0].x == next_x(pre.body@[0].x as int, d)
    &&& post.body@[0].y == next_y(pre.body@[0].y as int, d)
    &&& post.body@.skip(1) =~= pre.body@.drop_last()
    &&& post.last_removed_block == Some(pre.body@.last())
}

impl Snake {
    /// A fresh snake behind `(init_x + 2, init_y)`, heading `Right`.
    pub fn new(init_x: i32, init_y: i32) -> (s: Snake)
        requires
            init_x + 2 <= i32::MAX,
        ensures
            snake_is_new(s, init_x as int, init_y as int),
    {
        let mut init_body: Vec<Block> = Vec::new();
        init_body.push(Block { x: init_x + 2, y: init_y });
        init_body.push(Block { x: init_x + 1, y: init_y });
        init_body.push(Block { x: init_x, y: init_y });
        Snake {
            moving_direction: Direction::Right,
            body: init_body,
            last_removed_block: None,
        }
    }

    /// Advance one step: replace the heading when `dir` is given, push
    /// the next head cell, pop the tail cell and record it. Bounds and
    /// collisions are deliberately not checked here; the caller decides
    /// beforehand whether the step is safe.
    pub fn move_forward(&mut self, dir: Option<Direction>)
        requires
            old(self).body@.len() > 0,
            ({
                let d = heading_after(dir, old(self).moving_direction);
                &&& (d == Direction::Right ==> old(self).body@[0].x < i32::MAX)
                &&& (d == Direction::Left ==> old(self).body@[0].x > i32::MIN)
                &&& (d == Direction::Down ==> old(self).body@[0].y < i32::MAX)
                &&& (d == Direction::Up ==> old(self).body@[0].y > i32::MIN)
            }),
        ensures
            snake_moved(*old(self), *final(self), dir),
    {
        if let Some(d) = dir {
            self.moving_direction = d;
        }

        let (last_x, last_y): (i32, i32) = self.head_position();

        let new_block = match self.moving_direction {
            Direction::Up => Block { x: last_x, y: last_y - 1 },
            Direction::Down => Block { x: last_x, y: last_y + 1 },
            Direction::Left => Block { x: last_x - 1, y: last_y },
            Direction::Right => Block { x: last_x + 1, y: last_y },
        };

        self.body.insert(0, new_block);
        let removed_blk = self.body.pop().unwrap();
        self.last_removed_block = Some(removed_blk);
        proof {
            assert(old(self).body@.insert(0, new_block) =~= seq![new_block] + old(self).body@);
            assert(self.body@.skip(1) =~= old(self).body@.drop_last());
        }
    }

    /// The coordinates of the head cell.
    pub fn head_position(&self) -> (pos: (i32, i32))
        requires
            self.body@.len() > 0,
        ensures
            pos.0 == self.body@[0].x,
            pos.1 == self.body@[0].y,
    {
        let block = &self.body[0];
        (block.x, block.y)
    }

    /// The current heading.
    pub fn head_direction(&self) -> (d: Direction)
        ensures
            d == self.moving_direction,
    {
        self.moving_direction
    }

    /// Re-append the cell dropped by the latest move, growing the body
    /// by one; a no-op when no move has happened yet.
    pub fn increase_length(&mut self)
        ensures
            match old(self).last_removed_block {
                Some(b) => final(self).body@ =~= old(self).body@.push(b)
                    && final(self).moving_direction == old(self).moving_direction
                    && final(self).last_removed_block == old(self).last_removed_block,
                None => *final(self) == *old(self),
            },
    {
        match self.last_removed_block {
            Some(b) => self.body.push(b),
            None => {},
        }
    }

    /// An independent copy of the body, head first.
    pub fn get_body(&self) -> (body: Vec<Block>)
        ensures
            body@ == self.body@,
    {
        let mut out: Vec<Block> = Vec::new();
        let n = self.body.len();
        for i in 0..n
            invariant
                n == self.body@.len(),
                out@ =~= self.body@.take(i as int),
        {
            out.push(self.body[i]);
        }
        proof {
            assert(out@ =~= self.body@);
        }
        out
    }
}

} // verus!
