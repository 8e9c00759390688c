use vstd::prelude::*;

use crate::combat::{died_check, fight_outcome, without_dead};
use crate::game::{
    first_monster_from, grid_tile, inside, interior, lemma_first_monster, log_push, GameView,
    Monster, Pickup, Player, Tile, MAX_LOG_LINES, PLAYER_MAX_HP,
};
use crate::messages::{monster_deleted_text, slap_text};
use crate::monsters::{living_positions, monsters_turn, planned_step, turn_rolls_ok, turn_upto, Step};
use crate::room::{raised_by_draws, room_layout};
use crate::turn::{
    after_outcome, counters_fit, enter_exit, lemma_after_outcome, lemma_fight_wf, lemma_pickup_phase,
    move_outcome, pickup_phase, TurnRolls,
};

verus! {

/// Once the game is over, a move changes nothing.
pub proof fn law_game_over_is_final(g: GameView, dx: int, dy: int, r: TurnRolls, h: GameView)
    requires
        g.game_over,
        move_outcome(g, dx, dy, r, h),
    ensures
        h == g,
{
}

/// The log keeps the `MAX_LOG_LINES` most recent lines, oldest first: after
/// a line is added it is the last one, and the lines before it are the
/// latest of the earlier ones.
pub proof fn law_log_keeps_latest(ms: Seq<Seq<char>>, m: Seq<char>)
    requires
        ms.len() <= MAX_LOG_LINES,
    ensures
        log_push(ms, m).len() == if ms.len() < MAX_LOG_LINES {
            ms.len() + 1
        } else {
            MAX_LOG_LINES as nat
        },
        log_push(ms, m).last() == m,
        forall|k: int|
            0 <= k < log_push(ms, m).len() ==> #[trigger] log_push(ms, m)[k] == ms.push(m)[k + ms.len()
                + 1 - log_push(ms, m).len()],
{
}

/// A move never lowers the score.
pub proof fn law_score_never_drops(g: GameView, dx: int, dy: int, r: TurnRolls, h: GameView)
    requires
        g.wf(),
        counters_fit(g, dx, dy),
        move_outcome(g, dx, dy, r, h),
    ensures
        h.score >= g.score,
{
    let nx = g.player.x + dx;
    let ny = g.player.y + dy;
    if !g.game_over && inside(nx, ny) && grid_tile(g.tiles, nx, ny) != Tile::Wall {
        lemma_first_monster(g.monsters, nx, ny, 0);
        if let Some(i) = first_monster_from(g.monsters, nx, ny, 0) {
            let f = without_dead(fight_outcome(g, i, r.player_hit, r.monster_hit, r.fight_death));
            lemma_fight_wf(g, i, r.player_hit, r.monster_hit, r.fight_death);
            lemma_after_outcome(f, r.swaps, r.damages, r.turn_death);
        } else {
            lemma_pickup_phase(g, nx, ny, r.heal);
            let p = pickup_phase(g, nx, ny, r.heal);
            if grid_tile(g.tiles, nx, ny) != Tile::Exit {
                lemma_after_outcome(p, r.swaps, r.damages, r.turn_death);
            }
        }
    }
}

/// A move adds 0, 10, 15 or 25 to the score, and adds 25 exactly when it
/// enters a new room, which is also exactly when the room number rises by
/// one; otherwise the room number stays.
pub proof fn law_score_steps(g: GameView, dx: int, dy: int, r: TurnRolls, h: GameView)
    requires
        g.wf(),
        counters_fit(g, dx, dy),
        move_outcome(g, dx, dy, r, h),
    ensures
        h.score == g.score || h.score == g.score + 10 || h.score == g.score + 15 || h.score
            == g.score + 25,
        h.room_number == g.room_number || h.room_number == g.room_number + 1,
        h.room_number == g.room_number + 1 <==> h.score == g.score + 25,
{
    let nx = g.player.x + dx;
    let ny = g.player.y + dy;
    if !g.game_over && inside(nx, ny) && grid_tile(g.tiles, nx, ny) != Tile::Wall {
        lemma_first_monster(g.monsters, nx, ny, 0);
        if let Some(i) = first_monster_from(g.monsters, nx, ny, 0) {
            let f = without_dead(fight_outcome(g, i, r.player_hit, r.monster_hit, r.fight_death));
            lemma_fight_wf(g, i, r.player_hit, r.monster_hit, r.fight_death);
            lemma_after_outcome(f, r.swaps, r.damages, r.turn_death);
            assert(f.score == g.score || f.score == g.score + 15);
        } else {
            lemma_pickup_phase(g, nx, ny, r.heal);
            let p = pickup_phase(g, nx, ny, r.heal);
            if grid_tile(g.tiles, nx, ny) != Tile::Exit {
                lemma_after_outcome(p, r.swaps, r.damages, r.turn_death);
            }
        }
    }
}

/// The room number rises by one exactly when the player steps onto the
/// exit, and never changes otherwise.
pub proof fn law_room_advances_only_through_exit(
    g: GameView,
    dx: int,
    dy: int,
    r: TurnRolls,
    h: GameView,
)
    requires
        g.wf(),
        counters_fit(g, dx, dy),
        move_outcome(g, dx, dy, r, h),
    ensures
        h.room_number == g.room_number + if !g.game_over && inside(g.player.x + dx, g.player.y + dy)
            && grid_tile(g.tiles, g.player.x + dx, g.player.y + dy) == Tile::Exit {
            1int
        } else {
            0int
        },
{
    let nx = g.player.x + dx;
    let ny = g.player.y + dy;
    if !g.game_over && inside(nx, ny) && grid_tile(g.tiles, nx, ny) != Tile::Wall {
        lemma_first_monster(g.monsters, nx, ny, 0);
        if let Some(i) = first_monster_from(g.monsters, nx, ny, 0) {
            let f = without_dead(fight_outcome(g, i, r.player_hit, r.monster_hit, r.fight_death));
            lemma_fight_wf(g, i, r.player_hit, r.monster_hit, r.fight_death);
            lemma_after_outcome(f, r.swaps, r.damages, r.turn_death);
            assert(grid_tile(g.tiles, nx, ny) == Tile::Floor);
        } else {
            lemma_pickup_phase(g, nx, ny, r.heal);
            let p = pickup_phase(g, nx, ny, r.heal);
            if grid_tile(g.tiles, nx, ny) != Tile::Exit {
                lemma_after_outcome(p, r.swaps, r.damages, r.turn_death);
            }
        }
    }
}

/// Unless the player steps onto the exit, a move leaves the grid as it was.
pub proof fn law_grid_fixed_within_room(g: GameView, dx: int, dy: int, r: TurnRolls, h: GameView)
    requires
        g.wf(),
        counters_fit(g, dx, dy),
        move_outcome(g, dx, dy, r, h),
        !(inside(g.player.x + dx, g.player.y + dy) && grid_tile(
            g.tiles,
            g.player.x + dx,
            g.player.y + dy,
        ) == Tile::Exit),
    ensures
        h.tiles == g.tiles,
{
    let nx = g.player.x + dx;
    let ny = g.player.y + dy;
    if !g.game_over && inside(nx, ny) && grid_tile(g.tiles, nx, ny) != Tile::Wall {
        lemma_first_monster(g.monsters, nx, ny, 0);
        if let Some(i) = first_monster_from(g.monsters, nx, ny, 0) {
            let f = without_dead(fight_outcome(g, i, r.player_hit, r.monster_hit, r.fight_death));
            lemma_fight_wf(g, i, r.player_hit, r.monster_hit, r.fight_death);
            lemma_after_outcome(f, r.swaps, r.damages, r.turn_death);
        } else {
            lemma_pickup_phase(g, nx, ny, r.heal);
            let p = pickup_phase(g, nx, ny, r.heal);
            lemma_after_outcome(p, r.swaps, r.damages, r.turn_death);
        }
    }
}

/// Within a room the player either stays put or moves by exactly the step
/// asked for; only entering the exit puts the player somewhere else.
pub proof fn law_player_moves_by_the_step(g: GameView, dx: int, dy: int, r: TurnRolls, h: GameView)
    requires
        g.wf(),
        counters_fit(g, dx, dy),
        move_outcome(g, dx, dy, r, h),
        !(inside(g.player.x + dx, g.player.y + dy) && grid_tile(
            g.tiles,
            g.player.x + dx,
            g.player.y + dy,
        ) == Tile::Exit),
    ensures
        (h.player.x == g.player.x && h.player.y == g.player.y) || (h.player.x == g.player.x + dx
            && h.player.y == g.player.y + dy),
{
    let nx = g.player.x + dx;
    let ny = g.player.y + dy;
    if !g.game_over && inside(nx, ny) && grid_tile(g.tiles, nx, ny) != Tile::Wall {
        lemma_first_monster(g.monsters, nx, ny, 0);
        if let Some(i) = first_monster_from(g.monsters, nx, ny, 0) {
            let f = without_dead(fight_outcome(g, i, r.player_hit, r.monster_hit, r.fight_death));
            lemma_fight_wf(g, i, r.player_hit, r.monster_hit, r.fight_death);
            lemma_after_outcome(f, r.swaps, r.damages, r.turn_death);
        } else {
            lemma_pickup_phase(g, nx, ny, r.heal);
            let p = pickup_phase(g, nx, ny, r.heal);
            lemma_after_outcome(p, r.swaps, r.damages, r.turn_death);
        }
    }
}

/// The monsters' turns cost the player at most three hit points per
/// monster, and never heal.
pub proof fn law_monster_damage_bounded(
    g: GameView,
    swaps: Seq<bool>,
    damages: Seq<int>,
    death_roll: int,
)
    requires
        g.wf(),
        turn_rolls_ok(g, swaps, damages),
    ensures
        g.player.hp - 3 * g.monsters.len() <= after_outcome(g, swaps, damages, death_roll).player.hp
            <= g.player.hp,
{
    let snap = crate::monsters::living_positions(g.monsters);
    crate::monsters::lemma_turn_upto(g, snap, swaps, damages, g.monsters.len() as int);
    lemma_after_outcome(g, swaps, damages, death_roll);
}

/// A monster attacks only when the player is at most one cell away in each
/// direction.
pub proof fn law_monster_attacks_only_adjacent(
    tiles: Seq<Seq<Tile>>,
    player: Player,
    pickups: Seq<Pickup>,
    snap: Seq<(i32, i32)>,
    i: int,
    m: Monster,
    swap: bool,
)
    requires
        planned_step(tiles, player, pickups, snap, i, m, swap) == Step::Attack,
    ensures
        -1 <= player.x - m.x <= 1,
        -1 <= player.y - m.y <= 1,
{
}

/// A monster moves by at most one cell in each direction, and never away
/// from the player along either axis.
pub proof fn law_monster_steps_toward_player(
    tiles: Seq<Seq<Tile>>,
    player: Player,
    pickups: Seq<Pickup>,
    snap: Seq<(i32, i32)>,
    i: int,
    m: Monster,
    swap: bool,
)
    requires
        -1_000_000_000 <= m.x <= 1_000_000_000,
        -1_000_000_000 <= m.y <= 1_000_000_000,
    ensures
        planned_step(tiles, player, pickups, snap, i, m, swap) matches Step::MoveTo(x, y) ==> {
            &&& -1 <= x - m.x <= 1
            &&& -1 <= y - m.y <= 1
            &&& abs(player.x - x) <= abs(player.x - m.x)
            &&& abs(player.y - y) <= abs(player.y - m.y)
        },
{
}

/// The damage the living monsters whose step is an attack deal, summed over
/// the first `k` monsters.
pub open spec fn attack_total(g: GameView, swaps: Seq<bool>, damages: Seq<int>, k: int) -> int
    decreases k,
{
    if k <= 0 {
        0
    } else {
        let i = k - 1;
        let m = g.monsters[i];
        attack_total(g, swaps, damages, k - 1) + if m.hp > 0 && planned_step(
            g.tiles,
            g.player,
            g.pickups,
            living_positions(g.monsters),
            i,
            m,
            swaps[i],
        ) == Step::Attack {
            damages[i]
        } else {
            0
        }
    }
}

proof fn lemma_queued_is_attack_total(g: GameView, swaps: Seq<bool>, damages: Seq<int>, k: int)
    requires
        0 <= k <= g.monsters.len(),
        turn_rolls_ok(g, swaps, damages),
    ensures
        turn_upto(g, living_positions(g.monsters), swaps, damages, k).1 == attack_total(
            g,
            swaps,
            damages,
            k,
        ),
        turn_upto(g, living_positions(g.monsters), swaps, damages, k).0.player == g.player,
    decreases k,
{
    crate::monsters::lemma_turn_upto(g, living_positions(g.monsters), swaps, damages, k);
    if k > 0 {
        lemma_queued_is_attack_total(g, swaps, damages, k - 1);
    }
}

/// After the monsters' turn the player has lost exactly the sum of the
/// damages of every living monster whose step was an attack.
pub proof fn law_turn_damage_is_summed(g: GameView, swaps: Seq<bool>, damages: Seq<int>)
    requires
        g.wf(),
        turn_rolls_ok(g, swaps, damages),
    ensures
        monsters_turn(g, swaps, damages).player.hp == g.player.hp - attack_total(
            g,
            swaps,
            damages,
            g.monsters.len() as int,
        ),
{
    lemma_queued_is_attack_total(g, swaps, damages, g.monsters.len() as int);
    crate::monsters::lemma_turn_upto(
        g,
        living_positions(g.monsters),
        swaps,
        damages,
        g.monsters.len() as int,
    );
}

/// A monster never plans to walk onto a cell where any other monster, before
/// or after it in the list, stood when the turn began.
pub proof fn law_moves_avoid_other_monsters_cells(
    tiles: Seq<Seq<Tile>>,
    player: Player,
    pickups: Seq<Pickup>,
    snap: Seq<(i32, i32)>,
    i: int,
    m: Monster,
    swap: bool,
)
    requires
        -1_000_000_000 <= m.x <= 1_000_000_000,
        -1_000_000_000 <= m.y <= 1_000_000_000,
    ensures
        planned_step(tiles, player, pickups, snap, i, m, swap) matches Step::MoveTo(x, y) ==> forall|j: int|
            0 <= j < snap.len() && j != i ==> #[trigger] snap[j] != (x, y),
{
}

/// The inner walls of a fresh room come from between 18 and 33 drawn
/// interior cells: each drawn cell other than `(1, 1)` is a wall, and every
/// interior wall is one of the drawn cells.
pub proof fn law_fresh_room_walls(g: GameView, first_room: bool)
    requires
        room_layout(g, first_room),
    ensures
        exists|draws: Seq<(int, int)>|
            #![trigger draws.len()]
            18 <= draws.len() <= 33 && (forall|x: int, y: int|
                interior(x, y) && #[trigger] grid_tile(g.tiles, x, y) == Tile::Wall ==> draws.contains(
                    (x, y),
                )) && (forall|k: int|
                0 <= k < draws.len() ==> interior((#[trigger] draws[k]).0, draws[k].1) && (
                draws[k] != (1int, 1int) ==> grid_tile(g.tiles, draws[k].0, draws[k].1)
                    == Tile::Wall)),
{
    let draws = choose|draws: Seq<(int, int)>| #[trigger] raised_by_draws(g.tiles, draws);
    assert(raised_by_draws(g.tiles, draws));
    assert(18 <= draws.len() <= 33);
}

/// Every step that is not a bonk, a fight or a step onto the exit, with or
/// without a pickup, is answered by the monsters' turn on the state after
/// the step and the pickup.
pub proof fn law_monsters_answer_every_step(g: GameView, dx: int, dy: int, r: TurnRolls, h: GameView)
    requires
        move_outcome(g, dx, dy, r, h),
        !g.game_over,
        inside(g.player.x + dx, g.player.y + dy),
        grid_tile(g.tiles, g.player.x + dx, g.player.y + dy) == Tile::Floor,
        first_monster_from(g.monsters, g.player.x + dx, g.player.y + dy, 0) is None,
    ensures
        turn_rolls_ok(pickup_phase(g, g.player.x + dx, g.player.y + dy, r.heal), r.swaps, r.damages),
        h == died_check(
            monsters_turn(pickup_phase(g, g.player.x + dx, g.player.y + dy, r.heal), r.swaps, r.damages),
            r.turn_death,
        ),
{
}

/// A fight awards 15 and logs the kill exactly when the blow leaves the
/// monster at zero or fewer hit points; then the player is not hit. When the
/// monster keeps hit points, the score stays and the player loses the
/// monster's hit, down to zero at most.
pub proof fn law_fight_kill_rule(
    g: GameView,
    i: int,
    player_hit: int,
    monster_hit: int,
    death_roll: int,
)
    requires
        0 <= i < g.monsters.len(),
        0 < g.player.hp <= PLAYER_MAX_HP,
        0 <= g.monsters[i].hp <= 1000,
        0 <= g.score <= i32::MAX - 15,
        1 <= player_hit <= 4,
        0 <= monster_hit <= 3,
    ensures
        ({
            let h = fight_outcome(g, i, player_hit, monster_hit, death_roll);
            let left = g.monsters[i].hp - player_hit;
            &&& h.monsters.len() == g.monsters.len()
            &&& h.monsters[i].hp == left
            &&& left <= 0 ==> {
                &&& h.score == g.score + 15
                &&& h.player.hp == g.player.hp
                &&& h.messages.last() == monster_deleted_text()
            }
            &&& left > 0 ==> {
                &&& h.score == g.score
                &&& h.player.hp == if g.player.hp - monster_hit > 0 {
                    g.player.hp - monster_hit
                } else {
                    0
                }
                &&& g.player.hp - monster_hit > 0 ==> h.messages.last() == slap_text(
                    player_hit as nat,
                    monster_hit as nat,
                )
            }
        }),
{
}

/// The absolute value.
pub open spec fn abs(v: int) -> int {
    if v < 0 {
        -v
    } else {
        v
    }
}

} // verus!
