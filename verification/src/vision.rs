//! What an agent sees of the game: along each of the eight directions, how
//! far the food, the nearest cell of its own body and the wall are.

use vstd::prelude::*;
use crate::direction::{Direction, DIRECTION_COUNT};
use crate::game::{occupies, Game, GameState};
use crate::position::Position;

verus! {

/// Number of distances recorded for each direction.
pub const SLOTS_PER_DIRECTION: usize = 3;

/// Length of the vision vector.
pub const VISION_LENGTH: usize = 24;

/// How far `k` unit steps of component `unit` lead.
pub open spec fn reach(unit: int, k: int) -> int {
    if unit > 0 {
        k
    } else if unit < 0 {
        -k
    } else {
        0
    }
}

/// The cell `k` steps from the head in direction `d`.
pub open spec fn ray(s: GameState, d: Direction, k: int) -> Position {
    Position {
        x: (s.head().x + reach(d.dx(), k)) as isize,
        y: (s.head().y + reach(d.dy(), k)) as isize,
    }
}

/// The number of steps to the first cell off the grid at or after step `k`,
/// given that the ray leaves the grid by step `size + 2`.
pub open spec fn wall_distance_from(s: GameState, d: Direction, k: int) -> int
    decreases s.size + 2 - k,
{
    if k >= s.size + 2 || !ray(s, d, k).within(s.size) {
        k
    } else {
        wall_distance_from(s, d, k + 1)
    }
}

/// The number of steps from the head to the first cell off the grid.
pub open spec fn wall_distance(s: GameState, d: Direction) -> int {
    wall_distance_from(s, d, 1)
}

/// Whether the food lies `k` steps along the ray, no further than the wall.
pub open spec fn food_at(s: GameState, d: Direction, k: int) -> bool {
    1 <= k <= wall_distance(s, d) && ray(s, d, k) == s.food
}

/// Whether a cell of the body lies `k` steps along the ray, no further than
/// the wall.
pub open spec fn tail_at(s: GameState, d: Direction, k: int) -> bool {
    1 <= k <= wall_distance(s, d) && s.body.contains(ray(s, d, k))
}

/// Steps to the food if it lies on the ray, else 0.
#[verifier::opaque]
pub open spec fn food_distance(s: GameState, d: Direction) -> int {
    if exists|k: int| food_at(s, d, k) {
        choose|k: int| food_at(s, d, k)
    } else {
        0
    }
}

/// Steps to the nearest cell of the body on the ray, else 0.
#[verifier::opaque]
pub open spec fn tail_distance(s: GameState, d: Direction) -> int {
    if exists|k: int| tail_at(s, d, k) {
        choose|k: int| tail_at(s, d, k) && forall|j: int| 1 <= j < k ==> !tail_at(s, d, j)
    } else {
        0
    }
}

/// The three distances along direction `d`: food, tail, wall.
pub open spec fn sight(s: GameState, d: Direction) -> Seq<usize> {
    seq![
        food_distance(s, d) as usize,
        tail_distance(s, d) as usize,
        wall_distance(s, d) as usize,
    ]
}

/// The distances along the first `count` directions, one direction after
/// the other.
pub open spec fn vision_upto(s: GameState, count: nat) -> Seq<usize>
    decreases count,
{
    if count == 0 {
        Seq::empty()
    } else {
        vision_upto(s, (count - 1) as nat) + sight(s, Direction::nth(count - 1))
    }
}

/// The vision vector: for each of the eight directions in order its food,
/// tail and wall distance.
pub open spec fn vision_of(s: GameState) -> Seq<usize> {
    vision_upto(s, DIRECTION_COUNT as nat)
}

/// The edge of a well-formed game is small beside the range of coordinates.
pub proof fn lemma_size_small(s: GameState)
    requires
        s.wf(),
    ensures
        2 * s.size + 4 <= isize::MAX,
{
    assert(s.size * s.size >= 3 * s.size) by (nonlinear_arith)
        requires
            s.size >= 3,
    ;
    assert(usize::MAX == 2 * isize::MAX + 1);
}

/// Two different steps along a ray end on different cells, as long as both
/// stay near the grid.
proof fn lemma_ray_injective(s: GameState, d: Direction, j: int, k: int)
    requires
        s.wf(),
        0 <= j < k <= s.size + 2,
    ensures
        ray(s, d, j) != ray(s, d, k),
{
    let h = s.head();
    assert(h == s.body[s.body.len() - 1]);
    assert(d.dx() != 0 || d.dy() != 0);
    lemma_size_small(s);
}

/// The wall is at least one step and at most `size + 1` steps away; the cell
/// there is off the grid and every cell before it is on it.
pub proof fn lemma_wall_distance(s: GameState, d: Direction)
    requires
        s.wf(),
    ensures
        1 <= wall_distance(s, d) <= s.size + 1,
        !ray(s, d, wall_distance(s, d)).within(s.size),
        forall|j: int| 1 <= j < wall_distance(s, d) ==> ray(s, d, j).within(s.size),
{
    lemma_wall_distance_from(s, d, 1);
}

proof fn lemma_wall_distance_from(s: GameState, d: Direction, k: int)
    requires
        s.wf(),
        1 <= k <= s.size + 1,
    ensures
        k <= wall_distance_from(s, d, k) <= s.size + 1,
        !ray(s, d, wall_distance_from(s, d, k)).within(s.size),
        forall|j: int| k <= j < wall_distance_from(s, d, k) ==> ray(s, d, j).within(s.size),
    decreases s.size + 2 - k,
{
    let h = s.head();
    assert(h == s.body[s.body.len() - 1]);
    lemma_size_small(s);
    if ray(s, d, k).within(s.size) {
        assert(d.dx() != 0 || d.dy() != 0);
        lemma_wall_distance_from(s, d, k + 1);
    }
}

impl Game {
    /// Whether the food lies on `position`.
    pub fn is_food_collision(&self, position: &Position) -> (b: bool)
        ensures
            b == (self@.food == *position),
    {
        self.food() == *position
    }

    /// Whether `position` lies off the grid.
    pub fn is_wall_collision(&self, position: &Position) -> (b: bool)
        ensures
            b == !position.within(self@.size),
    {
        !position.is_within(self.size())
    }

    /// Whether a cell of the body lies on `position`.
    pub fn is_tail_collision(&self, position: &Position) -> (b: bool)
        ensures
            b == self@.body.contains(*position),
    {
        occupies(self.snake(), *position)
    }

    /// The three distances along one direction: to the food, to the nearest
    /// cell of the body, to the wall.
    pub fn look(&self, direction: Direction) -> (seen: (usize, usize, usize))
        requires
            self@.wf(),
        ensures
            seen.0 == food_distance(self@, direction),
            seen.1 == tail_distance(self@, direction),
            seen.2 == wall_distance(self@, direction),
    {
        let ghost s = self@;
        let ghost wall = wall_distance(s, direction);
        let head = self.head();
        let size = self.size();
        let offset = direction.value();
        let mut cursor = head;
        let mut distance: usize = 0;
        let mut food: usize = 0;
        let mut tail: usize = 0;
        proof {
            assert(head == s.body[s.body.len() - 1]);
            lemma_wall_distance(s, direction);
            lemma_size_small(s);
        }
        loop
            invariant_except_break
                distance < wall,
            invariant
                s == self@,
                size == s.size,
                head == s.head(),
                -1 <= head.x <= size,
                -1 <= head.y <= size,
                2 * size + 4 <= isize::MAX,
                offset.x == direction.dx(),
                offset.y == direction.dy(),
                1 <= wall <= size + 1,
                !ray(s, direction, wall).within(size as int),
                forall|j: int| 1 <= j < wall ==> ray(s, direction, j).within(size as int),
                0 <= distance <= wall,
                cursor == ray(s, direction, distance as int),
                food <= distance,
                tail <= distance,
                food != 0 ==> ray(s, direction, food as int) == s.food,
                food == 0 ==> forall|j: int| 1 <= j <= distance ==> ray(s, direction, j) != s.food,
                tail != 0 ==> s.body.contains(ray(s, direction, tail as int)),
                forall|j: int|
                    1 <= j <= distance && (tail == 0 || j < tail) ==> !s.body.contains(
                        ray(s, direction, j),
                    ),
            ensures
                distance == wall,
            decreases wall - distance,
        {
            distance += 1;
            cursor = cursor.add(offset);
            assert(cursor == ray(s, direction, distance as int));
            if self.is_food_collision(&cursor) {
                food = distance;
            }
            if self.is_tail_collision(&cursor) {
                if tail == 0 {
                    tail = distance;
                }
            }
            if self.is_wall_collision(&cursor) {
                break ;
            }
        }
        proof {
            lemma_seen(s, direction, food as int, tail as int);
        }
        (food, tail, distance)
    }

    /// The vision vector: for each of the eight directions in order, the
    /// distance to the food, to the nearest cell of the body and to the wall,
    /// 0 where the ray does not meet the food or the body.
    pub fn vision(&self) -> (seen: Vec<usize>)
        requires
            self@.wf(),
        ensures
            seen@ == vision_of(self@),
            seen@.len() == VISION_LENGTH,
    {
        let mut seen: Vec<usize> = Vec::with_capacity(VISION_LENGTH);
        let mut i: usize = 0;
        while i < DIRECTION_COUNT
            invariant
                0 <= i <= DIRECTION_COUNT,
                self@.wf(),
                seen@.len() == 3 * i,
                seen@ == vision_upto(self@, i as nat),
            decreases DIRECTION_COUNT - i,
        {
            let ghost before = seen@;
            let direction = Direction::from_ordinal(i);
            let (food, tail, wall) = self.look(direction);
            seen.push(food);
            seen.push(tail);
            seen.push(wall);
            assert(seen@ =~= before + sight(self@, direction));
            i += 1;
        }
        seen
    }
}

/// The food distance is the number of steps to the food where the ray meets
/// it before or at the wall, and 0 where it does not.
pub proof fn lemma_food_distance(s: GameState, d: Direction)
    requires
        s.wf(),
    ensures
        0 <= food_distance(s, d) < wall_distance(s, d),
        food_distance(s, d) != 0 ==> ray(s, d, food_distance(s, d)) == s.food,
        forall|k: int|
            1 <= k <= wall_distance(s, d) && ray(s, d, k) == s.food ==> food_distance(s, d) == k,
{
    reveal(food_distance);
    lemma_wall_distance(s, d);
    if exists|k: int| food_at(s, d, k) {
        let f = choose|k: int| food_at(s, d, k);
        assert forall|k: int| 1 <= k <= wall_distance(s, d) && ray(s, d, k) == s.food implies f
            == k by {
            if k < f {
                lemma_ray_injective(s, d, k, f);
            } else if f < k {
                lemma_ray_injective(s, d, f, k);
            }
        }
    } else {
        assert forall|k: int| 1 <= k <= wall_distance(s, d) && ray(s, d, k) == s.food implies 0
            == k by {
            assert(food_at(s, d, k));
        }
    }
}

/// The tail distance is the number of steps to the nearest cell of the body
/// that the ray meets before or at the wall, and 0 where it meets none.
pub proof fn lemma_tail_distance(s: GameState, d: Direction)
    requires
        s.wf(),
    ensures
        0 <= tail_distance(s, d) <= wall_distance(s, d),
        tail_distance(s, d) != 0 ==> s.body.contains(ray(s, d, tail_distance(s, d))),
        forall|k: int|
            1 <= k <= wall_distance(s, d) && s.body.contains(ray(s, d, k)) ==> 1 <= tail_distance(
                s,
                d,
            ) <= k,
{
    reveal(tail_distance);
    lemma_wall_distance(s, d);
    if exists|k: int| tail_at(s, d, k) {
        let k0 = choose|k: int| tail_at(s, d, k);
        lemma_nearest_tail(s, d, k0);
        let t = choose|k: int|
            tail_at(s, d, k) && forall|j: int| 1 <= j < k ==> !tail_at(s, d, j);
        assert forall|k: int|
            1 <= k <= wall_distance(s, d) && s.body.contains(ray(s, d, k)) implies 1 <= t
            <= k by {
            assert(tail_at(s, d, k));
        }
    } else {
        assert forall|k: int|
            1 <= k <= wall_distance(s, d) && s.body.contains(ray(s, d, k)) implies 1 <= 0int
            <= k by {
            assert(tail_at(s, d, k));
        }
    }
}

/// What a walk along the ray has found by the time it reaches the wall is
/// the food distance and the tail distance: `food` is a step at which the
/// ray meets the food, or 0 if there is none, and `tail` is the first step
/// at which it meets the body, or 0 if there is none.
proof fn lemma_seen(s: GameState, d: Direction, food: int, tail: int)
    requires
        s.wf(),
        0 <= food <= wall_distance(s, d),
        0 <= tail <= wall_distance(s, d),
        food != 0 ==> ray(s, d, food) == s.food,
        food == 0 ==> forall|j: int| 1 <= j <= wall_distance(s, d) ==> ray(s, d, j) != s.food,
        tail != 0 ==> s.body.contains(ray(s, d, tail)),
        forall|j: int|
            1 <= j <= wall_distance(s, d) && (tail == 0 || j < tail) ==> !s.body.contains(
                ray(s, d, j),
            ),
    ensures
        food == food_distance(s, d),
        tail == tail_distance(s, d),
{
    lemma_food_distance(s, d);
    lemma_tail_distance(s, d);
    let seen_tail = tail_distance(s, d);
    if seen_tail != 0 {
        assert(s.body.contains(ray(s, d, seen_tail)));
    }
}

/// If the ray meets the body at step `k`, there is a nearest step at which
/// it does.
proof fn lemma_nearest_tail(s: GameState, d: Direction, k: int)
    requires
        tail_at(s, d, k),
    ensures
        exists|n: int| tail_at(s, d, n) && forall|j: int| 1 <= j < n ==> !tail_at(s, d, j),
    decreases k,
{
    if exists|j: int| 1 <= j < k && tail_at(s, d, j) {
        let j = choose|j: int| 1 <= j < k && tail_at(s, d, j);
        lemma_nearest_tail(s, d, j);
    } else {
        assert(tail_at(s, d, k) && forall|j: int| 1 <= j < k ==> !tail_at(s, d, j));
    }
}

/// The vision vector holds, for the direction with ordinal `i`, its three
/// distances at `3 * i`, `3 * i + 1` and `3 * i + 2`.
pub proof fn lemma_vision_slots(s: GameState, count: nat, i: int)
    requires
        0 <= i < count,
    ensures
        vision_upto(s, count).len() == 3 * count,
        vision_upto(s, count)[3 * i] == food_distance(s, Direction::nth(i)) as usize,
        vision_upto(s, count)[3 * i + 1] == tail_distance(s, Direction::nth(i)) as usize,
        vision_upto(s, count)[3 * i + 2] == wall_distance(s, Direction::nth(i)) as usize,
    decreases count,
{
    lemma_vision_length(s, (count - 1) as nat);
    if i < count - 1 {
        lemma_vision_slots(s, (count - 1) as nat, i);
    }
}

proof fn lemma_vision_length(s: GameState, count: nat)
    ensures
        vision_upto(s, count).len() == 3 * count,
    decreases count,
{
    if count > 0 {
        lemma_vision_length(s, (count - 1) as nat);
        assert(sight(s, Direction::nth(count - 1)).len() == 3);
    }
}

/// Every wall slot of the vision vector is positive.
pub proof fn lemma_wall_slots_positive(s: GameState, i: int)
    requires
        s.wf(),
        0 <= i < DIRECTION_COUNT,
    ensures
        vision_of(s)[3 * i + 2] > 0,
{
    lemma_wall_distance(s, Direction::nth(i));
    lemma_vision_slots(s, DIRECTION_COUNT as nat, i);
}

} // verus!
