//! Facts about how a game evolves over steps and ticks.
use vstd::prelude::*;

use crate::board::on_tail;
use crate::game::{lemma_step_keeps_valid, saturate, step_interval, GameMode, GameView, Outcome};
use crate::geometry::{manhattan, Cell};
use crate::rolls::{Rolls, FRUIT_COOLDOWN_END, FRUIT_COOLDOWN_MIN};
use crate::spawner::spawn_cell;
use vstd::arithmetic::div_mod::lemma_mod_multiples_basic;

verus! {

/// Sum of a sequence of time deltas.
pub open spec fn total(deltas: Seq<u64>) -> int
    decreases deltas.len(),
{
    if deltas.len() == 0 {
        0
    } else {
        deltas[0] + total(deltas.drop_first())
    }
}

proof fn lemma_total_nonnegative(deltas: Seq<u64>)
    ensures
        total(deltas) >= 0,
    decreases deltas.len(),
{
    if deltas.len() > 0 {
        lemma_total_nonnegative(deltas.drop_first());
    }
}

/// The game after one `tick` for each delta, in order, the i-th tick
/// drawing `rolls[i]`.
pub open spec fn after_ticks(g: GameView, deltas: Seq<u64>, rolls: Seq<Rolls>) -> GameView
    decreases deltas.len(),
{
    if deltas.len() == 0 || rolls.len() == 0 {
        g
    } else {
        after_ticks(g.tick(deltas[0], rolls[0]).0, deltas.drop_first(), rolls.drop_first())
    }
}

/// Eating food adds exactly the difficulty to the score, and the step after
/// it grows the body by exactly one segment.
pub proof fn lemma_eating_food(g: GameView, rolls: Rolls, next_rolls: Rolls)
    requires
        g.valid(),
        g.next_head() == g.food,
        g.step(rolls).1 == Outcome::Continue,
        g.score + g.difficulty <= u32::MAX,
    ensures
        g.step(rolls).0.score == g.score + g.difficulty,
        g.step(rolls).0.score > g.score,
        g.step(rolls).0.just_ate,
        g.step(rolls).0.step(next_rolls).1 == Outcome::Continue ==> g.step(rolls).0.step(
            next_rolls,
        ).0.body.len() == g.step(rolls).0.body.len() + 1,
{
}

/// Every tick keeps a game valid: the snake's segments stay distinct and on
/// the board, and the food and the fruit stay on free cells apart from each
/// other.
pub proof fn lemma_tick_keeps_valid(g: GameView, delta: u64, rolls: Rolls)
    requires
        g.valid(),
    ensures
        g.tick(delta, rolls).0.valid(),
{
    if g.mode == GameMode::Game && delta >= g.next_tick_in {
        lemma_step_keeps_valid(g, rolls);
    }
}

/// The score never goes down, and short of the cap on the score each step
/// adds a multiple of the difficulty: the difficulty for food, and the
/// fruit's remaining steps times the difficulty for a fruit.
pub proof fn lemma_score_increments(g: GameView, delta: u64, rolls: Rolls)
    requires
        g.valid(),
    ensures
        g.tick(delta, rolls).0.score >= g.score,
        g.tick(delta, rolls).0.score < u32::MAX ==> (g.tick(delta, rolls).0.score - g.score) % (
        g.difficulty as int) == 0,
{
    let d = g.difficulty as int;
    let next = g.tick(delta, rolls).0;
    lemma_mod_multiples_basic(0, d);
    if next.score != g.score && next.score < u32::MAX {
        let head = g.next_head();
        let food_units: int = if head == g.food {
            1
        } else {
            0
        };
        let fruit_units: int = match g.fruit {
            Some((cell, left)) => if left > 0 && head == cell {
                left as int
            } else {
                0
            },
            None => 0,
        };
        assert(next.score == g.score + food_units * d + fruit_units * d);
        assert(food_units * d + fruit_units * d == (food_units + fruit_units) * d) by (nonlinear_arith);
        lemma_mod_multiples_basic(food_units + fruit_units, d);
    }
}

/// A step that would put the head onto another segment of the moved body
/// reports a collision and changes nothing; any other step does not report
/// one.
pub proof fn lemma_collision(g: GameView, rolls: Rolls)
    requires
        g.valid(),
    ensures
        (g.step(rolls).1 == Outcome::Collision) == on_tail(g.next_body(), g.next_head()),
        g.step(rolls).1 != Outcome::Continue ==> g.step(rolls).0 == g,
{
}

/// Ticks whose deltas sum to less than the time left to the next step only
/// count that time down. The first tick that uses the time up takes exactly
/// one step, which resets the time left to the full step interval.
pub proof fn lemma_pacing(
    g: GameView,
    deltas: Seq<u64>,
    rolls: Seq<Rolls>,
    last_delta: u64,
    last_rolls: Rolls,
)
    requires
        g.valid(),
        g.mode == GameMode::Game,
        rolls.len() == deltas.len(),
        total(deltas) < g.next_tick_in,
    ensures
        after_ticks(g, deltas, rolls) == (GameView {
            next_tick_in: (g.next_tick_in - total(deltas)) as u64,
            ..g
        }),
        total(deltas) + last_delta >= g.next_tick_in ==> after_ticks(
            g,
            deltas.push(last_delta),
            rolls.push(last_rolls),
        ) == after_ticks(g, deltas, rolls).step(last_rolls).0,
        after_ticks(g, deltas, rolls).step(last_rolls).1 == Outcome::Continue ==> {
            let stepped = after_ticks(g, deltas, rolls).step(last_rolls).0;
            &&& stepped.next_tick_in == step_interval(g.difficulty)
            &&& stepped.body == g.next_body()
        },
    decreases deltas.len(),
{
    if deltas.len() > 0 {
        let waited = g.tick(deltas[0], rolls[0]).0;
        lemma_total_nonnegative(deltas.drop_first());
        assert(deltas[0] <= total(deltas));
        assert(waited == GameView { next_tick_in: (g.next_tick_in - deltas[0]) as u64, ..g });
        lemma_pacing(waited, deltas.drop_first(), rolls.drop_first(), last_delta, last_rolls);
        assert(deltas.push(last_delta).drop_first() =~= deltas.drop_first().push(last_delta));
        assert(rolls.push(last_rolls).drop_first() =~= rolls.drop_first().push(last_rolls));
        assert(deltas.push(last_delta)[0] == deltas[0]);
        assert(rolls.push(last_rolls)[0] == rolls[0]);
        assert(after_ticks(g, deltas.push(last_delta), rolls.push(last_rolls)) == after_ticks(
            waited,
            deltas.drop_first().push(last_delta),
            rolls.drop_first().push(last_rolls),
        ));
    } else {
        assert(deltas.push(last_delta).drop_first() =~= seq![]);
        assert(rolls.push(last_rolls).drop_first() =~= seq![]);
        assert(deltas.push(last_delta)[0] == last_delta);
        assert(rolls.push(last_rolls)[0] == last_rolls);
        let single = g.tick(last_delta, last_rolls).0;
        assert(after_ticks(single, seq![], seq![]) == single);
        assert(after_ticks(g, deltas, rolls) == g);
    }
}

/// A fruit out on the board loses one step per step of the game. Eaten, it
/// awards its remaining steps times the difficulty; at zero steps it goes
/// without awarding anything. Either way a new cooldown is drawn.
pub proof fn lemma_fruit_lifecycle(g: GameView, rolls: Rolls, cell: Cell, left: u32)
    requires
        g.valid(),
        g.fruit == Some((cell, left)),
        g.step(rolls).1 == Outcome::Continue,
    ensures
        ({
            let next = g.step(rolls).0;
            let head = g.next_head();
            let food_points: int = if head == g.food {
                g.difficulty as int
            } else {
                0
            };
            &&& left > 0 && head != cell ==> next.fruit == Some((cell, (left - 1) as u32))
                && next.score == saturate(g.score + food_points)
            &&& left > 0 && head == cell ==> next.fruit is None && next.score == saturate(
                g.score + left * g.difficulty,
            ) && next.fruit_cooldown == rolls.fruit_cooldown
            &&& left == 0 ==> next.fruit is None && next.score == saturate(g.score + food_points)
                && next.fruit_cooldown == rolls.fruit_cooldown
            &&& rolls.valid() && next.fruit is None ==> FRUIT_COOLDOWN_MIN <= next.fruit_cooldown
                < FRUIT_COOLDOWN_END
        }),
{
}

/// With no fruit out and the cooldown run down, a step places a fruit on a
/// free cell, with twice its distance to the new head as its steps.
pub proof fn lemma_fruit_spawn(g: GameView, rolls: Rolls)
    requires
        g.valid(),
        g.fruit is None,
        g.fruit_cooldown == 0,
        g.step(rolls).1 == Outcome::Continue,
    ensures
        ({
            let next = g.step(rolls).0;
            let head = g.next_head();
            match spawn_cell(next.dimensions, next.body, next.food, None, rolls.fruit_picks@) {
                Some(c) => next.fruit == Some((c, (2 * manhattan(c, head)) as u32)),
                None => next.fruit is None,
            }
        }),
{
}

} // verus!
