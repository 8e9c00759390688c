use vstd::prelude::*;

use crate::combat::{died_check, fight_outcome, lemma_living, living, without_dead};
use crate::game::{
    first_monster_from, first_pickup_from, grid_standable, grid_tile, grid_walled, inside,
    interior, lemma_first_monster, lemma_first_pickup, log_push, monster_at, monsters_ok,
    pickup_at, pickups_ok, FloaterColor, FloaterSpawn, Game, GameView, Monster, Pickup, PickupKind, Player,
    Tile, MAX_LOG_LINES,
};
use crate::monsters::{
    coords_fit, lemma_turn_upto, living_positions, monsters_turn, option_verdict, planned_step,
    turn_rolls_ok, turn_upto, Step,
};

verus! {

/// A cell that a monster may walk to: on the grid, neither a wall nor the
/// exit, not the player's cell and not a pickup's cell.
pub open spec fn walkable(
    tiles: Seq<Seq<Tile>>,
    player: Player,
    pickups: Seq<Pickup>,
    x: int,
    y: int,
) -> bool {
    &&& inside(x, y)
    &&& grid_tile(tiles, x, y) != Tile::Wall
    &&& grid_tile(tiles, x, y) != Tile::Exit
    &&& !(x == player.x && y == player.y)
    &&& forall|k: int| 0 <= k < pickups.len() ==> !pickup_at(#[trigger] pickups[k], x, y)
}

/// A planned move leads to a walkable cell.
pub proof fn lemma_move_target(
    tiles: Seq<Seq<Tile>>,
    player: Player,
    pickups: Seq<Pickup>,
    snap: Seq<(i32, i32)>,
    i: int,
    m: Monster,
    swap: bool,
)
    ensures
        planned_step(tiles, player, pickups, snap, i, m, swap) matches Step::MoveTo(x, y)
            ==> walkable(tiles, player, pickups, x as int, y as int),
{
}

/// Through the monsters' turns every monster keeps its hit points and
/// stays on a standable cell away from the player and the pickups, and the
/// log stays within `MAX_LOG_LINES`.
pub proof fn lemma_turn_keeps_placement(
    g: GameView,
    swaps: Seq<bool>,
    damages: Seq<int>,
    k: int,
)
    requires
        g.wf(),
        turn_rolls_ok(g, swaps, damages),
        0 <= k <= g.monsters.len(),
    ensures
        ({
            let h = turn_upto(g, living_positions(g.monsters), swaps, damages, k).0;
            &&& h.messages.len() <= MAX_LOG_LINES
            &&& forall|j: int|
                0 <= j < h.monsters.len() ==> {
                    let m = #[trigger] h.monsters[j];
                    &&& m.hp == g.monsters[j].hp
                    &&& grid_standable(g.tiles, m.x as int, m.y as int)
                    &&& !(m.x == g.player.x && m.y == g.player.y)
                    &&& forall|q: int|
                        0 <= q < g.pickups.len() ==> !pickup_at(#[trigger] g.pickups[q], m.x as int, m.y as int)
                }
        }),
    decreases k,
{
    let snap = living_positions(g.monsters);
    lemma_turn_upto(g, snap, swaps, damages, k);
    if k > 0 {
        lemma_turn_keeps_placement(g, swaps, damages, k - 1);
        lemma_turn_upto(g, snap, swaps, damages, k - 1);
        let i = k - 1;
        let m = g.monsters[i];
        lemma_move_target(g.tiles, g.player, g.pickups, snap, i, m, swaps[i]);
        let h0 = turn_upto(g, snap, swaps, damages, k - 1).0;
        let h = turn_upto(g, snap, swaps, damages, k).0;
        assert forall|j: int| 0 <= j < h.monsters.len() implies {
            let mm = #[trigger] h.monsters[j];
            &&& mm.hp == g.monsters[j].hp
            &&& grid_standable(g.tiles, mm.x as int, mm.y as int)
            &&& !(mm.x == g.player.x && mm.y == g.player.y)
            &&& forall|q: int|
                0 <= q < g.pickups.len() ==> !pickup_at(#[trigger] g.pickups[q], mm.x as int, mm.y as int)
        } by {
            if j != i {
                assert(h.monsters[j] == h0.monsters[j]);
                if j > i {
                    assert(h0.monsters[j] == g.monsters[j]);
                }
            } else {
                assert(h0.monsters[j] == g.monsters[j]);
                if h.monsters[j] != g.monsters[j] {
                    let mm = h.monsters[j];
                    assert(grid_walled(g.tiles));
                    assert(interior(mm.x as int, mm.y as int));
                }
            }
        }
    }
}

/// The game after the monsters' turns and the check for the player's death.
pub open spec fn after_outcome(
    g: GameView,
    swaps: Seq<bool>,
    damages: Seq<int>,
    death_roll: int,
) -> GameView {
    died_check(monsters_turn(g, swaps, damages), death_roll)
}

/// The monsters' turns keep a game well-formed, leave the grid, the pickups,
/// the player's cell, the score and the room as they were, and take at most
/// three hit points per monster from the player.
pub proof fn lemma_after_outcome(g: GameView, swaps: Seq<bool>, damages: Seq<int>, death_roll: int)
    requires
        g.wf(),
        turn_rolls_ok(g, swaps, damages),
    ensures
        after_outcome(g, swaps, damages, death_roll).wf(),
        after_outcome(g, swaps, damages, death_roll).tiles == g.tiles,
        after_outcome(g, swaps, damages, death_roll).pickups == g.pickups,
        after_outcome(g, swaps, damages, death_roll).monsters.len() == g.monsters.len(),
        after_outcome(g, swaps, damages, death_roll).player.x == g.player.x,
        after_outcome(g, swaps, damages, death_roll).player.y == g.player.y,
        after_outcome(g, swaps, damages, death_roll).player.hp <= g.player.hp,
        after_outcome(g, swaps, damages, death_roll).score == g.score,
        after_outcome(g, swaps, damages, death_roll).room_number == g.room_number,
{
    let snap = living_positions(g.monsters);
    let n = g.monsters.len() as int;
    lemma_turn_upto(g, snap, swaps, damages, n);
    lemma_turn_keeps_placement(g, swaps, damages, n);
    let h = turn_upto(g, snap, swaps, damages, n).0;
    let t = monsters_turn(g, swaps, damages);
    let r = after_outcome(g, swaps, damages, death_roll);
    assert(t.tiles == g.tiles && t.pickups == g.pickups);
    assert(monsters_ok(r.tiles, r.player, r.monsters, r.pickups));
    assert(pickups_ok(r.tiles, r.player, r.pickups));
    let (ex, ey) = choose|ex: int, ey: int| #[trigger] crate::game::grid_exit_only_at(g.tiles, ex, ey);
    assert(crate::game::grid_exit_only_at(r.tiles, ex, ey));
}

impl Game {
    /// After the player acts, the monsters take their turns and the player's
    /// death is checked.
    pub fn after_player_action(&mut self)
        requires
            old(self)@.wf(),
        ensures
            final(self)@.wf(),
            exists|swaps: Seq<bool>, damages: Seq<int>, death_roll: int|
                turn_rolls_ok(old(self)@, swaps, damages) && 0 <= death_roll < 5 && final(self)@
                    == #[trigger] after_outcome(old(self)@, swaps, damages, death_roll),
    {
        let ghost g0 = self@;
        proof {
            crate::monsters::lemma_wf_coords_fit(g0);
        }
        self.move_monsters();
        let ghost mid = self@;
        let ghost (swaps, damages) = choose|swaps: Seq<bool>, damages: Seq<int>|
            turn_rolls_ok(g0, swaps, damages) && mid == #[trigger] monsters_turn(g0, swaps, damages);
        self.end_if_dead();
        proof {
            let r = choose|r: int| 0 <= r < 5 && self@ == #[trigger] died_check(mid, r);
            assert(self@ == after_outcome(g0, swaps, damages, r));
            lemma_after_outcome(g0, swaps, damages, r);
        }
    }
}

/// A fight with the first living monster on the target cell keeps the
/// game well-formed once the dead are removed.
pub proof fn lemma_fight_wf(g: GameView, i: int, player_hit: int, monster_hit: int, death_roll: int)
    requires
        g.wf(),
        !g.game_over,
        0 <= i < g.monsters.len(),
        1 <= player_hit <= 4,
        0 <= monster_hit <= 3,
        g.score <= i32::MAX - 15,
    ensures
        without_dead(fight_outcome(g, i, player_hit, monster_hit, death_roll)).wf(),
{
    let f = fight_outcome(g, i, player_hit, monster_hit, death_roll);
    let w = without_dead(f);
    lemma_living(f.monsters);
    assert forall|k: int| 0 <= k < w.monsters.len() implies {
        let m = #[trigger] w.monsters[k];
        &&& grid_standable(w.tiles, m.x as int, m.y as int)
        &&& 0 < m.hp <= crate::game::MONSTER_MAX_HP
        &&& !(m.x == w.player.x && m.y == w.player.y)
    } by {
        let j = choose|j: int| 0 <= j < f.monsters.len() && f.monsters[j] == w.monsters[k];
        assert(f.monsters[j].x == g.monsters[j].x && f.monsters[j].y == g.monsters[j].y);
    }
    assert forall|k: int, q: int| 0 <= k < w.monsters.len() && 0 <= q < w.pickups.len() implies !pickup_at(
        #[trigger] w.pickups[q],
        #[trigger] w.monsters[k].x as int,
        w.monsters[k].y as int,
    ) by {
        let j = choose|j: int| 0 <= j < f.monsters.len() && f.monsters[j] == w.monsters[k];
        assert(f.monsters[j].x == g.monsters[j].x && f.monsters[j].y == g.monsters[j].y);
    }
    let (ex, ey) = choose|ex: int, ey: int| #[trigger] crate::game::grid_exit_only_at(g.tiles, ex, ey);
    assert(crate::game::grid_exit_only_at(w.tiles, ex, ey));
}

/// The player steps onto `(nx, ny)` and picks up the first pickup there, if
/// any: treasure adds 10 to the score, a potion heals `heal` up to the
/// maximum; either is logged and shown on the cell.
pub open spec fn pickup_phase(g: GameView, nx: int, ny: int, heal: int) -> GameView {
    let moved = GameView { player: Player { x: nx as i32, y: ny as i32, ..g.player }, ..g };
    match first_pickup_from(g.pickups, nx, ny, 0) {
        None => moved,
        Some(j) => {
            let taken = GameView { pickups: g.pickups.remove(j), ..moved };
            match g.pickups[j].kind {
                PickupKind::Treasure => GameView { score: (g.score + 10) as i32, ..taken }.logged(
                    crate::messages::treasure_text(),
                ).with_floater(
                    crate::messages::gold_floater_text(),
                    nx as i32,
                    ny as i32,
                    FloaterColor::Gold,
                ),
                PickupKind::Potion => {
                    let hp = if g.player.hp + heal < g.player.max_hp {
                        g.player.hp + heal
                    } else {
                        g.player.max_hp as int
                    };
                    GameView {
                        player: Player { hp: hp as i32, ..taken.player },
                        ..taken
                    }.logged(crate::messages::potion_text(heal as nat)).with_floater(
                        crate::messages::heal_floater_text(heal as nat),
                        nx as i32,
                        ny as i32,
                        FloaterColor::Green,
                    )
                },
            }
        },
    }
}

/// Reaching the exit: the room number rises by one, the score by 25, and
/// it is logged.
pub open spec fn enter_exit(g: GameView) -> GameView {
    GameView {
        room_number: (g.room_number + 1) as u32,
        score: (g.score + 25) as i32,
        ..g
    }.logged(crate::messages::exit_text())
}

/// Stepping onto a free or pickup cell keeps the player's state, the log,
/// the room number and the score well-formed, and off the exit keeps the
/// whole game well-formed.
pub proof fn lemma_pickup_phase(g: GameView, nx: int, ny: int, heal: int)
    requires
        g.wf(),
        !g.game_over,
        inside(nx, ny),
        grid_tile(g.tiles, nx, ny) != Tile::Wall,
        first_monster_from(g.monsters, nx, ny, 0) is None,
        2 <= heal <= 4,
        first_pickup_from(g.pickups, nx, ny, 0) matches Some(j) && g.pickups[j].kind
            == PickupKind::Treasure ==> g.score <= i32::MAX - 10,
    ensures
        ({
            let p = pickup_phase(g, nx, ny, heal);
            &&& p.player.max_hp == crate::game::PLAYER_MAX_HP
            &&& 0 < p.player.hp <= p.player.max_hp
            &&& !p.game_over
            &&& p.messages.len() <= MAX_LOG_LINES
            &&& p.room_number == g.room_number
            &&& (p.score == g.score || p.score == g.score + 10)
            &&& grid_tile(g.tiles, nx, ny) == Tile::Exit ==> p.score == g.score
            &&& p.tiles == g.tiles
            &&& grid_tile(g.tiles, nx, ny) != Tile::Exit ==> p.wf()
        }),
{
    let p = pickup_phase(g, nx, ny, heal);
    lemma_first_monster(g.monsters, nx, ny, 0);
    lemma_first_pickup(g.pickups, nx, ny, 0);
    assert(grid_walled(g.tiles));
    if grid_tile(g.tiles, nx, ny) == Tile::Exit {
        if let Some(j) = first_pickup_from(g.pickups, nx, ny, 0) {
            assert(grid_standable(g.tiles, g.pickups[j].x as int, g.pickups[j].y as int));
        }
    }
    if grid_tile(g.tiles, nx, ny) != Tile::Exit {
        assert(interior(nx, ny));
        assert forall|k: int| 0 <= k < p.monsters.len() implies {
            let m = #[trigger] p.monsters[k];
            &&& grid_standable(p.tiles, m.x as int, m.y as int)
            &&& 0 < m.hp <= crate::game::MONSTER_MAX_HP
            &&& !(m.x == p.player.x && m.y == p.player.y)
        } by {
            assert(!monster_at(g.monsters[k], nx, ny));
        }
        match first_pickup_from(g.pickups, nx, ny, 0) {
            None => {
                assert forall|k: int| 0 <= k < p.pickups.len() implies {
                    let q = #[trigger] p.pickups[k];
                    &&& grid_standable(p.tiles, q.x as int, q.y as int)
                    &&& !(q.x == p.player.x && q.y == p.player.y)
                } by {
                    assert(!pickup_at(g.pickups[k], nx, ny));
                }
            },
            Some(j) => {
                let rest = g.pickups.remove(j);
                assert forall|k: int| 0 <= k < p.pickups.len() implies {
                    let q = #[trigger] p.pickups[k];
                    &&& grid_standable(p.tiles, q.x as int, q.y as int)
                    &&& !(q.x == p.player.x && q.y == p.player.y)
                } by {
                    let src = if k < j { k } else { k + 1 };
                    assert(p.pickups[k] == g.pickups[src]);
                    assert(!pickup_at(g.pickups[src], g.pickups[j].x as int, g.pickups[j].y as int));
                }
                assert forall|a: int, b: int|
                    0 <= a < p.pickups.len() && 0 <= b < p.pickups.len() && a != b implies !pickup_at(
                        #[trigger] p.pickups[a],
                        #[trigger] p.pickups[b].x as int,
                        p.pickups[b].y as int,
                    ) by {
                    let sa = if a < j { a } else { a + 1 };
                    let sb = if b < j { b } else { b + 1 };
                    assert(p.pickups[a] == g.pickups[sa]);
                    assert(p.pickups[b] == g.pickups[sb]);
                }
                assert forall|k: int, q: int| 0 <= k < p.monsters.len() && 0 <= q < p.pickups.len() implies !pickup_at(
                    #[trigger] p.pickups[q],
                    #[trigger] p.monsters[k].x as int,
                    p.monsters[k].y as int,
                ) by {
                    let sq = if q < j { q } else { q + 1 };
                    assert(p.pickups[q] == g.pickups[sq]);
                }
            },
        }
        let (ex, ey) = choose|ex: int, ey: int| #[trigger] crate::game::grid_exit_only_at(g.tiles, ex, ey);
        assert(crate::game::grid_exit_only_at(p.tiles, ex, ey));
    }
}

/// The move by `(dx, dy)` cannot overflow the score or the room number: a
/// fight can add 15 to the score, treasure 10, and the exit 25 to the score
/// and one to the room number; a bonk or a step onto another cell adds
/// nothing.
pub open spec fn counters_fit(g: GameView, dx: int, dy: int) -> bool {
    let nx = g.player.x + dx;
    let ny = g.player.y + dy;
    if g.game_over || !inside(nx, ny) || grid_tile(g.tiles, nx, ny) == Tile::Wall {
        true
    } else if first_monster_from(g.monsters, nx, ny, 0) is Some {
        g.score <= i32::MAX - 15
    } else {
        &&& (first_pickup_from(g.pickups, nx, ny, 0) matches Some(j) && g.pickups[j].kind
            == PickupKind::Treasure ==> g.score <= i32::MAX - 10)
        &&& (grid_tile(g.tiles, nx, ny) == Tile::Exit ==> g.score <= i32::MAX - 25
            && g.room_number < u32::MAX)
    }
}

/// The dice a player's turn may roll.
pub struct TurnRolls {
    pub player_hit: int,
    pub monster_hit: int,
    pub fight_death: int,
    pub heal: int,
    pub swaps: Seq<bool>,
    pub damages: Seq<int>,
    pub turn_death: int,
}

/// The single rolls are in the ranges that the turn draws them from.
pub open spec fn rolls_in_range(r: TurnRolls) -> bool {
    &&& 1 <= r.player_hit <= 4
    &&& 0 <= r.monster_hit <= 3
    &&& 0 <= r.fight_death < 5
    &&& 2 <= r.heal <= 4
    &&& 0 <= r.turn_death < 5
}

/// `h` is what the player's move by `(dx, dy)` makes of `g` with rolls `r`:
/// - when the game is over, nothing changes;
/// - when the target cell is off the grid or a wall, the move is logged as
///   a bonk and nothing else changes;
/// - when a living monster stands there, the player fights the first such
///   monster without moving, the dead are removed, and the monsters take
///   their turns;
/// - otherwise the player steps there and picks up what lies there; on the
///   exit the room number and score rise and a new room is generated,
///   elsewhere the monsters take their turns.
pub open spec fn move_outcome(g: GameView, dx: int, dy: int, r: TurnRolls, h: GameView) -> bool {
    let nx = g.player.x + dx;
    let ny = g.player.y + dy;
    if g.game_over {
        h == g
    } else if !inside(nx, ny) || grid_tile(g.tiles, nx, ny) == Tile::Wall {
        h == g.logged(crate::messages::bonk_text())
    } else if let Some(i) = first_monster_from(g.monsters, nx, ny, 0) {
        let f = without_dead(fight_outcome(g, i, r.player_hit, r.monster_hit, r.fight_death));
        &&& rolls_in_range(r)
        &&& turn_rolls_ok(f, r.swaps, r.damages)
        &&& h == after_outcome(f, r.swaps, r.damages, r.turn_death)
    } else {
        let p = pickup_phase(g, nx, ny, r.heal);
        &&& rolls_in_range(r)
        &&& if grid_tile(g.tiles, nx, ny) == Tile::Exit {
            crate::room::is_fresh_room(enter_exit(p), false, h)
        } else {
            &&& turn_rolls_ok(p, r.swaps, r.damages)
            &&& h == after_outcome(p, r.swaps, r.damages, r.turn_death)
        }
    }
}

impl Game {
    /// Whether the move by `(dx, dy)` keeps the score and the room number
    /// within their integer types.
    pub fn move_fits_counters(&self, dx: i32, dy: i32) -> (b: bool)
        requires
            self@.wf(),
            i32::MIN <= self@.player.x + dx <= i32::MAX,
            i32::MIN <= self@.player.y + dy <= i32::MAX,
        ensures
            b == counters_fit(self@, dx as int, dy as int),
    {
        if self.game_over {
            return true;
        }
        let nx = self.player.x + dx;
        let ny = self.player.y + dy;
        if !Self::is_inside(nx, ny) || self.is_blocked(nx, ny) {
            return true;
        }
        if self.monster_index_at(nx, ny).is_some() {
            return self.score <= i32::MAX - 15;
        }
        let found = self.pickup_index_at(nx, ny);
        proof {
            lemma_first_pickup(self@.pickups, nx as int, ny as int, 0);
        }
        let treasure_fits = match found {
            Some(j) => self.pickups[j].kind != PickupKind::Treasure || self.score <= i32::MAX - 10,
            None => true,
        };
        let exit_fits = self.tile_at(nx, ny) != Tile::Exit || (self.score <= i32::MAX - 25
            && self.room_number < u32::MAX);
        treasure_fits && exit_fits
    }

    /// The player tries to move by `(dx, dy)`: into a wall or off the map is
    /// a bonk, into a monster is a fight, onto a pickup takes it, onto the
    /// exit starts a new room; otherwise the monsters answer.
    #[verifier::rlimit(40)]
    pub fn try_move_player(&mut self, dx: i32, dy: i32)
        requires
            old(self)@.wf(),
            counters_fit(old(self)@, dx as int, dy as int),
            i32::MIN <= old(self)@.player.x + dx <= i32::MAX,
            i32::MIN <= old(self)@.player.y + dy <= i32::MAX,
        ensures
            final(self)@.wf(),
            exists|r: TurnRolls| #[trigger] move_outcome(old(self)@, dx as int, dy as int, r, final(self)@),
    {
        let ghost g0 = self@;
        let ghost zero = TurnRolls {
            player_hit: 1,
            monster_hit: 0,
            fight_death: 0,
            heal: 2,
            swaps: Seq::empty(),
            damages: Seq::empty(),
            turn_death: 0,
        };
        if self.game_over {
            assert(move_outcome(g0, dx as int, dy as int, zero, self@));
            return;
        }
        let nx = self.player.x + dx;
        let ny = self.player.y + dy;
        if !Self::is_inside(nx, ny) || self.is_blocked(nx, ny) {
            let msg = crate::messages::bonk_message();
            self.log(msg);
            assert(move_outcome(g0, dx as int, dy as int, zero, self@));
            return;
        }
        if let Some(mi) = self.monster_index_at(nx, ny) {
            proof {
                lemma_first_monster(g0.monsters, nx as int, ny as int, 0);
            }
            self.fight(mi);
            let ghost fought = self@;
            let ghost (ph, mh, fd) = choose|ph: int, mh: int, fd: int|
                1 <= ph <= 4 && 0 <= mh <= 3 && 0 <= fd < 5 && fought == #[trigger] fight_outcome(
                    g0,
                    mi as int,
                    ph,
                    mh,
                    fd,
                );
            self.remove_dead_monsters();
            proof {
                lemma_fight_wf(g0, mi as int, ph, mh, fd);
            }
            let ghost f = self@;
            self.after_player_action();
            proof {
                let (swaps, damages, td) = choose|swaps: Seq<bool>, damages: Seq<int>, td: int|
                    turn_rolls_ok(f, swaps, damages) && 0 <= td < 5 && self@ == #[trigger] after_outcome(
                        f,
                        swaps,
                        damages,
                        td,
                    );
                let r = TurnRolls {
                    player_hit: ph,
                    monster_hit: mh,
                    fight_death: fd,
                    heal: 2,
                    swaps,
                    damages,
                    turn_death: td,
                };
                assert(move_outcome(g0, dx as int, dy as int, r, self@));
            }
            return;
        }
        proof {
            lemma_first_monster(g0.monsters, nx as int, ny as int, 0);
        }
        self.player.x = nx;
        self.player.y = ny;
        let ghost mut heal: int = 2;
        if let Some(pi) = self.pickup_index_at(nx, ny) {
            proof {
                lemma_first_pickup(g0.pickups, nx as int, ny as int, 0);
            }
            let pickup = self.pickups.remove(pi);
            match pickup.kind {
                PickupKind::Treasure => {
                    self.score = self.score + 10;
                    let msg = crate::messages::treasure_message();
                    self.log(msg);
                    let text = crate::messages::gold_floater();
                    self.spawn_floater(text, nx, ny, FloaterColor::Gold);
                },
                PickupKind::Potion => {
                    let amount = crate::dice::roll(2, 5);
                    proof {
                        heal = amount as int;
                    }
                    self.player.hp = (self.player.hp + amount).min(self.player.max_hp);
                    let msg = crate::messages::potion_message(amount as u32);
                    self.log(msg);
                    let text = crate::messages::heal_floater(amount as u32);
                    self.spawn_floater(text, nx, ny, FloaterColor::Green);
                },
            }
        }
        assert(self@ =~= pickup_phase(g0, nx as int, ny as int, heal));
        proof {
            lemma_pickup_phase(g0, nx as int, ny as int, heal);
        }
        let ghost p = self@;
        if self.tile_at(nx, ny) == Tile::Exit {
            self.room_number = self.room_number + 1;
            self.score = self.score + 25;
            let msg = crate::messages::exit_message();
            self.log(msg);
            let ghost e = self@;
            assert(e == enter_exit(p));
            self.generate_room(false);
            proof {
                crate::room::lemma_fresh_room_wf(e, false, self@);
                let r = TurnRolls {
                    player_hit: 1,
                    monster_hit: 0,
                    fight_death: 0,
                    heal,
                    swaps: Seq::empty(),
                    damages: Seq::empty(),
                    turn_death: 0,
                };
                assert(move_outcome(g0, dx as int, dy as int, r, self@));
            }
            return;
        }
        self.after_player_action();
        proof {
            let (swaps, damages, td) = choose|swaps: Seq<bool>, damages: Seq<int>, td: int|
                turn_rolls_ok(p, swaps, damages) && 0 <= td < 5 && self@ == #[trigger] after_outcome(
                    p,
                    swaps,
                    damages,
                    td,
                );
            let r = TurnRolls {
                player_hit: 1,
                monster_hit: 0,
                fight_death: 0,
                heal,
                swaps,
                damages,
                turn_death: td,
            };
            assert(move_outcome(g0, dx as int, dy as int, r, self@));
        }
    }
}

impl Game {
    /// When the game is over and a restart is asked for, starts a new game;
    /// otherwise nothing changes.
    pub fn handle_restart(&mut self, restart_pressed: bool)
        requires
            old(self)@.wf(),
        ensures
            final(self)@.wf(),
            old(self)@.game_over && restart_pressed ==> {
                &&& crate::room::room_layout(final(self)@, true)
                &&& final(self)@.player.hp == crate::game::PLAYER_MAX_HP
                &&& final(self)@.room_number == 1
                &&& final(self)@.score == 0
                &&& !final(self)@.game_over
                &&& final(self)@.messages == seq![crate::messages::room_text(1, final(self)@.vibe)]
            },
            !(old(self)@.game_over && restart_pressed) ==> final(self)@ == old(self)@,
    {
        if self.game_over && restart_pressed {
            self.reset();
        }
    }

    /// Hands out whether a room was generated and the floating texts spawned
    /// since the last call, and clears both.
    pub fn take_effects(&mut self) -> (effects: (bool, Vec<FloaterSpawn>))
        ensures
            effects.0 == old(self)@.fresh_room,
            effects.1@.map_values(|f: FloaterSpawn| f@) == old(self)@.floaters,
            final(self)@ == (GameView { floaters: Seq::empty(), fresh_room: false, ..old(self)@ }),
    {
        let fresh = self.fresh_room;
        self.fresh_room = false;
        let mut spawned: Vec<FloaterSpawn> = Vec::new();
        std::mem::swap(&mut spawned, &mut self.floaters);
        assert(self@ =~= (GameView { floaters: Seq::empty(), fresh_room: false, ..old(self)@ }));
        (fresh, spawned)
    }
}

} // verus!
