use vstd::prelude::*;
use vstd::set_lib::{lemma_int_range, lemma_len_subset, set_int_range};

use crate::dice::roll;
use crate::game::{
    grid_exit_only_at, grid_shaped, grid_standable, grid_tile, grid_walled, Player, lemma_with_tile, inside, interior, log_push, pickup_at, Game, GameView, Monster, Pickup, PickupKind, Tile,
    GRID_H, GRID_W, MAX_LOG_LINES, MAX_MONSTERS, MAX_PICKUPS, MONSTER_MAX_HP, PLAYER_MAX_HP,
};
use crate::messages::{room_message, room_text};
use crate::vibe::Vibe;

verus! {

/// Number of interior cells of the grid.
pub open spec fn interior_cell_count() -> int {
    (GRID_W - 2) * (GRID_H - 2)
}

/// Misses after which the search for an empty cell stops drawing cells at
/// random and draws from the list of empty cells instead.
pub const EMPTY_CELL_DRAWS: u32 = 10_000;

/// A grid of `GRID_H` rows of `GRID_W` floor tiles.
pub fn floor_grid() -> (tiles: Vec<Vec<Tile>>)
    ensures
        tiles@.len() == GRID_H,
        forall|y: int| 0 <= y < GRID_H ==> #[trigger] tiles@[y]@.len() == GRID_W,
        forall|y: int, x: int|
            0 <= y < GRID_H && 0 <= x < GRID_W ==> #[trigger] tiles@[y]@[x] == Tile::Floor,
{
    let mut tiles: Vec<Vec<Tile>> = Vec::new();
    let mut y: i32 = 0;
    while y < GRID_H
        invariant
            0 <= y <= GRID_H,
            tiles@.len() == y,
            forall|j: int| 0 <= j < y ==> #[trigger] tiles@[j]@.len() == GRID_W,
            forall|j: int, x: int|
                0 <= j < y && 0 <= x < GRID_W ==> #[trigger] tiles@[j]@[x] == Tile::Floor,
        decreases GRID_H - y,
    {
        let mut row: Vec<Tile> = Vec::new();
        let mut x: i32 = 0;
        while x < GRID_W
            invariant
                0 <= x <= GRID_W,
                row@.len() == x,
                forall|i: int| 0 <= i < x ==> #[trigger] row@[i] == Tile::Floor,
                0 <= y < GRID_H,
                tiles@.len() == y,
                forall|j: int| 0 <= j < y ==> #[trigger] tiles@[j]@.len() == GRID_W,
                forall|j: int, i: int|
                    0 <= j < y && 0 <= i < GRID_W ==> #[trigger] tiles@[j]@[i] == Tile::Floor,
            decreases GRID_W - x,
        {
            row.push(Tile::Floor);
            x = x + 1;
        }
        let ghost r = row@;
        tiles.push(row);
        assert(tiles@[y as int]@ == r);
        y = y + 1;
    }
    tiles
}

/// The position of an interior cell in a row-major numbering from zero.
pub open spec fn cell_number(x: int, y: int) -> int {
    (y - 1) * (GRID_W - 2) + (x - 1)
}

/// When fewer cells than the interior has are listed, and every interior
/// cell that is not free is listed, some interior cell is free.
pub proof fn lemma_free_cell_exists(g: GameView, listed: Seq<(int, int)>)
    requires
        listed.len() < interior_cell_count(),
        forall|x: int, y: int|
            interior(x, y) && !g.free_cell(x, y) ==> #[trigger] listed.contains((x, y)),
    ensures
        exists|x: int, y: int| #[trigger] g.free_cell(x, y),
{
    if !(exists|x: int, y: int| #[trigger] g.free_cell(x, y)) {
        let numbers = listed.map_values(|p: (int, int)| cell_number(p.0, p.1));
        let all = set_int_range(0, interior_cell_count());
        assert forall|n: int| all.contains(n) implies #[trigger] numbers.to_set().contains(n) by {
            let x = n % (GRID_W - 2) + 1;
            let y = n / (GRID_W - 2) + 1;
            assert(0 <= n % 18 < 18 && 0 <= n / 18 < 10 && n == (n / 18) * 18 + n % 18) by (nonlinear_arith)
                requires
                    0 <= n < 180,
            ;
            assert(interior(x, y));
            assert(!g.free_cell(x, y));
            assert(listed.contains((x, y)));
            let k = choose|k: int| 0 <= k < listed.len() && listed[k] == (x, y);
            assert(numbers[k] == n);
        }
        lemma_int_range(0, interior_cell_count());
        numbers.lemma_cardinality_of_set();
        vstd::seq_lib::seq_to_set_is_finite(numbers);
        lemma_len_subset(all, numbers.to_set());
        assert(false);
    }
}

impl Game {
    /// An interior floor cell that nothing occupies, picked at random:
    /// interior cells are drawn until an empty one comes up; after
    /// `EMPTY_CELL_DRAWS` misses one is drawn from the list of empty cells.
    pub fn random_empty_position(&self) -> (pos: (i32, i32))
        requires
            self@.shaped(),
            exists|x: int, y: int| #[trigger] self@.free_cell(x, y),
        ensures
            self@.free_cell(pos.0 as int, pos.1 as int),
    {
        let mut attempt: u32 = 0;
        while attempt < EMPTY_CELL_DRAWS
            invariant
                self@.shaped(),
            decreases EMPTY_CELL_DRAWS - attempt,
        {
            let x = roll(1, GRID_W - 1);
            let y = roll(1, GRID_H - 1);
            if self.tile_at(x, y) == Tile::Floor && !self.occupied_by_spawned_entity(x, y) {
                return (x, y);
            }
            attempt = attempt + 1;
        }
        let cells = self.empty_cells();
        let ghost w = choose|x: int, y: int| #[trigger] self@.free_cell(x, y);
        assert(self@.free_cell(w.0, w.1));
        assert(cells@.contains((w.0 as i32, w.1 as i32)));
        let k = roll(0, cells.len() as i32);
        assert(self@.free_cell(cells@[k as int].0 as int, cells@[k as int].1 as int));
        cells[k as usize]
    }

    /// Every empty interior floor cell, row by row.
    pub fn empty_cells(&self) -> (cells: Vec<(i32, i32)>)
        requires
            self@.shaped(),
        ensures
            cells@.len() <= interior_cell_count(),
            forall|i: int|
                0 <= i < cells@.len() ==> self@.free_cell(
                    #[trigger] cells@[i].0 as int,
                    cells@[i].1 as int,
                ),
            forall|x: int, y: int|
                #[trigger] self@.free_cell(x, y) ==> cells@.contains((x as i32, y as i32)),
    {
        let mut cells: Vec<(i32, i32)> = Vec::new();
        let mut y: i32 = 1;
        while y < GRID_H - 1
            invariant
                self@.shaped(),
                1 <= y <= GRID_H - 1,
                cells@.len() <= (y - 1) * (GRID_W - 2),
                forall|i: int|
                    0 <= i < cells@.len() ==> self@.free_cell(
                        #[trigger] cells@[i].0 as int,
                        cells@[i].1 as int,
                    ),
                forall|a: int, b: int|
                    #[trigger] self@.free_cell(a, b) && b < y ==> cells@.contains(
                        (a as i32, b as i32),
                    ),
            decreases GRID_H - 1 - y,
        {
            let mut x: i32 = 1;
            while x < GRID_W - 1
                invariant
                    self@.shaped(),
                    1 <= y < GRID_H - 1,
                    1 <= x <= GRID_W - 1,
                    cells@.len() <= (y - 1) * (GRID_W - 2) + (x - 1),
                    forall|i: int|
                        0 <= i < cells@.len() ==> self@.free_cell(
                            #[trigger] cells@[i].0 as int,
                            cells@[i].1 as int,
                        ),
                    forall|a: int, b: int|
                        #[trigger] self@.free_cell(a, b) && (b < y || (b == y && a < x))
                            ==> cells@.contains((a as i32, b as i32)),
                decreases GRID_W - 1 - x,
            {
                if self.tile_at(x, y) == Tile::Floor && !self.occupied_by_spawned_entity(x, y) {
                    let ghost before = cells@;
                    cells.push((x, y));
                    assert forall|a: int, b: int|
                        #[trigger] self@.free_cell(a, b) && (b < y || (b == y && a < x + 1))
                            implies cells@.contains((a as i32, b as i32)) by {
                        if b == y && a == x {
                            assert(cells@[cells@.len() - 1] == (a as i32, b as i32));
                        } else {
                            assert(before.contains((a as i32, b as i32)));
                            let k = choose|k: int| 0 <= k < before.len() && before[k] == (a as i32, b as i32);
                            assert(cells@[k] == (a as i32, b as i32));
                        }
                    }
                }
                x = x + 1;
            }
            assert((y - 1) * (GRID_W - 2) + (GRID_W - 2) == y * (GRID_W - 2)) by (nonlinear_arith);
            y = y + 1;
        }
        cells
    }
}


/// Most walls that a room raises inside its border.
pub const MAX_INNER_WALLS: i32 = 33;

/// Least number of cells a room draws for its inner walls.
pub const MIN_WALL_DRAWS: i32 = 18;

/// Every drawn cell is interior, and every one but `(1, 1)` holds a wall.
pub open spec fn draws_raised(tiles: Seq<Seq<Tile>>, draws: Seq<(int, int)>) -> bool {
    forall|k: int|
        0 <= k < draws.len() ==> interior((#[trigger] draws[k]).0, draws[k].1) && (draws[k] != (1int, 1int)
            ==> grid_tile(tiles, draws[k].0, draws[k].1) == Tile::Wall)
}

/// The inner walls of `tiles` are exactly those raised by `draws`, between
/// `MIN_WALL_DRAWS` and `MAX_INNER_WALLS` drawn cells, a draw of `(1, 1)`
/// raising nothing.
pub open spec fn raised_by_draws(tiles: Seq<Seq<Tile>>, draws: Seq<(int, int)>) -> bool {
    &&& MIN_WALL_DRAWS <= draws.len() <= MAX_INNER_WALLS
    &&& inner_walls_listed(tiles, draws)
    &&& draws_raised(tiles, draws)
}

/// Every interior wall of the grid `tiles` is listed in `walls`.
pub open spec fn inner_walls_listed(tiles: Seq<Seq<Tile>>, walls: Seq<(int, int)>) -> bool {
    forall|x: int, y: int|
        interior(x, y) && #[trigger] grid_tile(tiles, x, y) == Tile::Wall ==> walls.contains((x, y))
}

/// Every pickup stands on its own interior floor cell, away from the player.
pub open spec fn pickups_placed(tiles: Seq<Seq<Tile>>, player: Player, pickups: Seq<Pickup>) -> bool {
    &&& forall|i: int|
        0 <= i < pickups.len() ==> {
            let p = #[trigger] pickups[i];
            &&& grid_standable(tiles, p.x as int, p.y as int)
            &&& !(p.x == player.x && p.y == player.y)
        }
    &&& forall|i: int, j: int|
        0 <= i < pickups.len() && 0 <= j < pickups.len() && i != j ==> !pickup_at(
            #[trigger] pickups[i],
            #[trigger] pickups[j].x as int,
            pickups[j].y as int,
        )
}

/// Every monster has full starting health and stands on its own interior
/// floor cell, away from the player and from every pickup.
pub open spec fn monsters_placed(
    tiles: Seq<Seq<Tile>>,
    player: Player,
    monsters: Seq<Monster>,
    pickups: Seq<Pickup>,
) -> bool {
    &&& forall|i: int|
        0 <= i < monsters.len() ==> {
            let m = #[trigger] monsters[i];
            &&& grid_standable(tiles, m.x as int, m.y as int)
            &&& !(m.x == player.x && m.y == player.y)
            &&& 2 <= m.hp <= MONSTER_MAX_HP
        }
    &&& forall|i: int, j: int|
        0 <= i < monsters.len() && 0 <= j < monsters.len() && i != j ==> !(
        #[trigger] monsters[i].x == #[trigger] monsters[j].x && monsters[i].y == monsters[j].y)
    &&& forall|i: int, j: int|
        0 <= i < monsters.len() && 0 <= j < pickups.len() ==> !pickup_at(
            #[trigger] pickups[j],
            #[trigger] monsters[i].x as int,
            monsters[i].y as int,
        )
}

/// The first `t` pickups are treasures, two to five of them, and the
/// remaining one or two are potions.
pub open spec fn treasures_then_potions(ps: Seq<Pickup>, t: int) -> bool {
    &&& 2 <= t <= 5
    &&& 1 <= ps.len() - t <= 2
    &&& forall|i: int|
        0 <= i < ps.len() ==> (#[trigger] ps[i]).kind == if i < t {
            PickupKind::Treasure
        } else {
            PickupKind::Potion
        }
}

/// `g` holds a freshly generated room: a walled grid whose inner walls are
/// raised by `MIN_WALL_DRAWS` to `MAX_INNER_WALLS` drawn cells, never at
/// `(1, 1)`, and one exit; two to
/// five treasures followed by one or two potions; one to `MAX_MONSTERS`
/// monsters with two to `MONSTER_MAX_HP` hit points; the player, pickups and
/// monsters on distinct interior floor cells, the player at `(1, 1)` in a
/// first room; and no floating texts yet.
pub open spec fn room_layout(g: GameView, first_room: bool) -> bool {
    &&& grid_shaped(g.tiles)
    &&& grid_walled(g.tiles)
    &&& g.unique_exit()
    &&& grid_tile(g.tiles, 1, 1) != Tile::Wall
    &&& exists|draws: Seq<(int, int)>| #[trigger] raised_by_draws(g.tiles, draws)
    &&& grid_standable(g.tiles, g.player.x as int, g.player.y as int)
    &&& first_room ==> g.player_at(1, 1)
    &&& exists|t: int| #[trigger] treasures_then_potions(g.pickups, t)
    &&& 1 <= g.monsters.len() <= MAX_MONSTERS
    &&& pickups_placed(g.tiles, g.player, g.pickups)
    &&& monsters_placed(g.tiles, g.player, g.monsters, g.pickups)
    &&& g.floaters.len() == 0
    &&& g.fresh_room
}

/// `g` is a room that `generate_room` can make from `start`: a fresh room
/// layout, in a later room with the player on another cell than before,
/// the room's line added to the log, and the player's hit points,
/// the room number, the score and the game-over flag as in `start`.
pub open spec fn is_fresh_room(start: GameView, first_room: bool, g: GameView) -> bool {
    &&& room_layout(g, first_room)
    &&& !first_room ==> !g.player_at(start.player.x as int, start.player.y as int)
    &&& g.player.hp == start.player.hp
    &&& g.player.max_hp == start.player.max_hp
    &&& g.room_number == start.room_number
    &&& g.score == start.score
    &&& g.game_over == start.game_over
    &&& g.messages == log_push(start.messages, room_text(start.room_number, g.vibe))
}

/// A fresh room is a well-formed game when the player's state, the log,
/// the room number and the score it carries over were well-formed.
pub proof fn lemma_fresh_room_wf(start: GameView, first_room: bool, g: GameView)
    requires
        is_fresh_room(start, first_room, g),
        start.player.max_hp == PLAYER_MAX_HP,
        0 <= start.player.hp <= start.player.max_hp,
        start.game_over <==> start.player.hp == 0,
        start.messages.len() <= MAX_LOG_LINES,
        start.room_number >= 1,
        start.score >= 0,
    ensures
        g.wf(),
{
    let t = choose|t: int| #[trigger] treasures_then_potions(g.pickups, t);
    assert(g.pickups.len() <= MAX_PICKUPS);
}

/// What holds while a room is being filled.
pub open spec fn building(
    g: GameView,
    start: GameView,
    first_room: bool,
    walls: Seq<(int, int)>,
    ex: int,
    ey: int,
) -> bool {
    &&& grid_shaped(g.tiles)
    &&& grid_walled(g.tiles)
    &&& grid_tile(g.tiles, 1, 1) != Tile::Wall
    &&& raised_by_draws(g.tiles, walls)
    &&& grid_exit_only_at(g.tiles, ex, ey)
    &&& grid_standable(g.tiles, g.player.x as int, g.player.y as int)
    &&& first_room ==> g.player_at(1, 1)
    &&& !first_room ==> !g.player_at(start.player.x as int, start.player.y as int)
    &&& g.player.hp == start.player.hp
    &&& g.player.max_hp == start.player.max_hp
    &&& pickups_placed(g.tiles, g.player, g.pickups)
    &&& monsters_placed(g.tiles, g.player, g.monsters, g.pickups)
    &&& g.room_number == start.room_number
    &&& g.score == start.score
    &&& g.game_over == start.game_over
    &&& g.messages == start.messages
    &&& g.floaters.len() == 0
    &&& g.fresh_room
}

/// A grid with few enough walls, exits, pickups and monsters has a free cell.
pub proof fn lemma_room_has_space(g: GameView, walls: Seq<(int, int)>, exits: Seq<(int, int)>)
    requires
        g.shaped(),
        walls.len() <= MAX_INNER_WALLS,
        inner_walls_listed(g.tiles, walls),
        exits.len() <= 1,
        forall|x: int, y: int|
            inside(x, y) && #[trigger] grid_tile(g.tiles, x, y) == Tile::Exit ==> exits.contains((x, y)),
        g.pickups.len() <= MAX_PICKUPS,
        g.monsters.len() <= MAX_MONSTERS,
    ensures
        exists|x: int, y: int| #[trigger] g.free_cell(x, y),
{
    let ps = g.pickups.map_values(|p: Pickup| (p.x as int, p.y as int));
    let ms = g.monsters.map_values(|m: Monster| (m.x as int, m.y as int));
    let listed = walls + seq![(g.player.x as int, g.player.y as int)] + exits + ps + ms;
    assert forall|x: int, y: int| interior(x, y) && !g.free_cell(x, y) implies #[trigger] listed.contains(
        (x, y),
    ) by {
        let off1 = walls.len() + 1;
        let off2 = off1 + exits.len();
        let off3 = off2 + ps.len();
        if g.tile(x, y) == Tile::Wall {
            let k = choose|k: int| 0 <= k < walls.len() && walls[k] == (x, y);
            assert(listed[k] == (x, y));
        } else if g.tile(x, y) == Tile::Exit {
            let k = choose|k: int| 0 <= k < exits.len() && exits[k] == (x, y);
            assert(listed[off1 + k] == (x, y));
        } else if g.player_at(x, y) {
            assert(listed[walls.len() as int] == (x, y));
        } else if g.any_pickup_at(x, y) {
            let k = choose|k: int| 0 <= k < g.pickups.len() && #[trigger] pickup_at(g.pickups[k], x, y);
            assert(listed[off2 + k] == (x, y));
        } else {
            assert(g.any_monster_at(x, y));
            let k = choose|k: int|
                0 <= k < g.monsters.len() && #[trigger] crate::game::monster_at(g.monsters[k], x, y);
            assert(listed[off3 + k] == (x, y));
        }
    }
    lemma_free_cell_exists(g, listed);
}

/// Adding a pickup on a free cell keeps every pickup and monster placed.
pub proof fn lemma_add_pickup(g: GameView, h: GameView, x: int, y: int, kind: PickupKind)
    requires
        g.free_cell(x, y),
        pickups_placed(g.tiles, g.player, g.pickups),
        monsters_placed(g.tiles, g.player, g.monsters, g.pickups),
        h == (GameView { pickups: g.pickups.push(Pickup { x: x as i32, y: y as i32, kind }), ..g }),
        x == x as i32 && y == y as i32,
    ensures
        pickups_placed(h.tiles, h.player, h.pickups),
        monsters_placed(h.tiles, h.player, h.monsters, h.pickups),
{
    let n = g.pickups.len() as int;
    assert forall|i: int, j: int|
        0 <= i < h.pickups.len() && 0 <= j < h.pickups.len() && i != j implies !pickup_at(
            #[trigger] h.pickups[i],
            #[trigger] h.pickups[j].x as int,
            h.pickups[j].y as int,
        ) by {
        if i == n {
            assert(!pickup_at(g.pickups[j], x, y));
        } else if j == n {
            assert(!pickup_at(g.pickups[i], x, y));
        } else {
            assert(h.pickups[i] == g.pickups[i] && h.pickups[j] == g.pickups[j]);
        }
    }
    assert forall|i: int, j: int|
        0 <= i < h.monsters.len() && 0 <= j < h.pickups.len() implies !pickup_at(
            #[trigger] h.pickups[j],
            #[trigger] h.monsters[i].x as int,
            h.monsters[i].y as int,
        ) by {
        if j == n {
            assert(!crate::game::monster_at(g.monsters[i], x, y));
        } else {
            assert(h.pickups[j] == g.pickups[j]);
        }
    }
}

/// Adding a monster with two to `MONSTER_MAX_HP` hit points on a free cell
/// keeps every pickup and monster placed.
pub proof fn lemma_add_monster(g: GameView, h: GameView, x: int, y: int, hp: int)
    requires
        g.free_cell(x, y),
        pickups_placed(g.tiles, g.player, g.pickups),
        monsters_placed(g.tiles, g.player, g.monsters, g.pickups),
        2 <= hp <= MONSTER_MAX_HP,
        h == (GameView {
            monsters: g.monsters.push(Monster { x: x as i32, y: y as i32, hp: hp as i32 }),
            ..g
        }),
        x == x as i32 && y == y as i32,
    ensures
        pickups_placed(h.tiles, h.player, h.pickups),
        monsters_placed(h.tiles, h.player, h.monsters, h.pickups),
{
    let n = g.monsters.len() as int;
    assert forall|i: int, j: int|
        0 <= i < h.monsters.len() && 0 <= j < h.monsters.len() && i != j implies !(
        #[trigger] h.monsters[i].x == #[trigger] h.monsters[j].x && h.monsters[i].y
            == h.monsters[j].y) by {
        if i == n {
            assert(!crate::game::monster_at(g.monsters[j], x, y));
        } else if j == n {
            assert(!crate::game::monster_at(g.monsters[i], x, y));
        } else {
            assert(h.monsters[i] == g.monsters[i] && h.monsters[j] == g.monsters[j]);
        }
    }
    assert forall|i: int, j: int|
        0 <= i < h.monsters.len() && 0 <= j < h.pickups.len() implies !pickup_at(
            #[trigger] h.pickups[j],
            #[trigger] h.monsters[i].x as int,
            h.monsters[i].y as int,
        ) by {
        if i == n {
            assert(!pickup_at(g.pickups[j], x, y));
        } else {
            assert(h.monsters[i] == g.monsters[i]);
        }
    }
    assert forall|i: int| 0 <= i < h.monsters.len() implies {
        let m = #[trigger] h.monsters[i];
        &&& h.standable(m.x as int, m.y as int)
        &&& !h.player_at(m.x as int, m.y as int)
        &&& 2 <= m.hp <= MONSTER_MAX_HP
    } by {
        if i < n {
            assert(h.monsters[i] == g.monsters[i]);
        }
    }
}

impl Game {
    /// A new game: the player at `(1, 1)` with full health, room one, no
    /// score, and a freshly generated first room.
    pub fn new() -> (game: Game)
        ensures
            game@.wf(),
            room_layout(game@, true),
            game@.player.hp == PLAYER_MAX_HP,
            game@.room_number == 1,
            game@.score == 0,
            !game@.game_over,
            game@.messages == seq![room_text(1, game@.vibe)],
    {
        let mut game = Game {
            tiles: floor_grid(),
            player: Player { x: 1, y: 1, hp: PLAYER_MAX_HP, max_hp: PLAYER_MAX_HP },
            monsters: Vec::new(),
            pickups: Vec::new(),
            room_number: 1,
            vibe: Vibe::random(),
            score: 0,
            messages: Vec::new(),
            floaters: Vec::new(),
            game_over: false,
            fresh_room: false,
        };
        let ghost start = game@;
        game.generate_room(true);
        proof {
            lemma_fresh_room_wf(start, true, game@);
            assert(game@.messages =~= seq![room_text(1, game@.vibe)]);
        }
        game
    }

    /// Starts over with a new game.
    pub fn reset(&mut self)
        ensures
            final(self)@.wf(),
            room_layout(final(self)@, true),
            final(self)@.player.hp == PLAYER_MAX_HP,
            final(self)@.room_number == 1,
            final(self)@.score == 0,
            !final(self)@.game_over,
            final(self)@.messages == seq![room_text(1, final(self)@.vibe)],
    {
        *self = Self::new();
    }

    /// Builds a new room: a fresh grid with a wall border and random inner
    /// walls, the player (at `(1, 1)` in the first room, else on a random
    /// empty cell), an exit, two to five treasures, one or two potions and
    /// one to four monsters with two to four hit points, each on a random
    /// empty cell; then logs the room's line.
    pub fn generate_room(&mut self, first_room: bool)
        ensures
            is_fresh_room(old(self)@, first_room, final(self)@),
    {
        let ghost start = self@;
        self.tiles = floor_grid();
        self.monsters.clear();
        self.pickups.clear();
        self.floaters.clear();
        self.vibe = Vibe::random();
        self.fresh_room = true;
        proof {
            assert forall|b: int| 0 <= b < GRID_H implies #[trigger] self@.tiles[b].len() == GRID_W by {
                assert(self@.tiles[b] == self.tiles@[b]@);
            }
            assert forall|a: int, b: int| inside(a, b) implies #[trigger] grid_tile(self@.tiles, a, b) == Tile::Floor by {
                assert(self@.tiles[b] == self.tiles@[b]@);
            }
        }
        let walls = self.raise_walls();
        if first_room {
            self.player.x = 1;
            self.player.y = 1;
        } else {
            proof {
                lemma_room_has_space(self@, walls@, Seq::empty());
            }
            let (px, py) = self.random_empty_position();
            self.player.x = px;
            self.player.y = py;
        }
        proof {
            lemma_room_has_space(self@, walls@, Seq::empty());
        }
        let (ex, ey) = self.random_empty_position();
        proof {
            lemma_with_tile(self@, ex as int, ey as int, Tile::Exit);
        }
        self.set_tile(ex, ey, Tile::Exit);
        let ghost exits = seq![(ex as int, ey as int)];
        assert(building(self@, start, first_room, walls@, ex as int, ey as int));

        let treasure_count = roll(2, 6);
        let mut k: i32 = 0;
        while k < treasure_count
            invariant
                building(self@, start, first_room, walls@, ex as int, ey as int),
                exits == seq![(ex as int, ey as int)],
                0 <= k <= treasure_count <= 5,
                self@.pickups.len() == k,
                self@.monsters.len() == 0,
                forall|i: int| 0 <= i < k ==> (#[trigger] self@.pickups[i]).kind == PickupKind::Treasure,
            decreases treasure_count - k,
        {
            proof {
                assert(exits[0] == (ex as int, ey as int));
                lemma_room_has_space(self@, walls@, exits);
            }
            let (x, y) = self.random_empty_position();
            let ghost before = self@;
            self.pickups.push(Pickup { x, y, kind: PickupKind::Treasure });
            proof {
                lemma_add_pickup(before, self@, x as int, y as int, PickupKind::Treasure);
            }
            k = k + 1;
        }
        let potion_count = 1 + roll(0, 2);
        let mut k: i32 = 0;
        while k < potion_count
            invariant
                building(self@, start, first_room, walls@, ex as int, ey as int),
                exits == seq![(ex as int, ey as int)],
                2 <= treasure_count <= 5,
                0 <= k <= potion_count <= 2,
                self@.pickups.len() == treasure_count + k,
                self@.monsters.len() == 0,
                forall|i: int|
                    0 <= i < self@.pickups.len() ==> (#[trigger] self@.pickups[i]).kind == if i
                        < treasure_count {
                        PickupKind::Treasure
                    } else {
                        PickupKind::Potion
                    },
            decreases potion_count - k,
        {
            proof {
                assert(exits[0] == (ex as int, ey as int));
                lemma_room_has_space(self@, walls@, exits);
            }
            let (x, y) = self.random_empty_position();
            let ghost before = self@;
            self.pickups.push(Pickup { x, y, kind: PickupKind::Potion });
            proof {
                lemma_add_pickup(before, self@, x as int, y as int, PickupKind::Potion);
            }
            k = k + 1;
        }
        assert(treasures_then_potions(self@.pickups, treasure_count as int));
        let monster_count = roll(1, 5);
        let mut k: i32 = 0;
        while k < monster_count
            invariant
                building(self@, start, first_room, walls@, ex as int, ey as int),
                exits == seq![(ex as int, ey as int)],
                treasures_then_potions(self@.pickups, treasure_count as int),
                0 <= k <= monster_count <= MAX_MONSTERS,
                self@.monsters.len() == k,
            decreases monster_count - k,
        {
            proof {
                assert(exits[0] == (ex as int, ey as int));
                lemma_room_has_space(self@, walls@, exits);
            }
            let (x, y) = self.random_empty_position();
            let hp = roll(2, 5);
            let ghost before = self@;
            self.monsters.push(Monster { x, y, hp });
            proof {
                lemma_add_monster(before, self@, x as int, y as int, hp as int);
            }
            k = k + 1;
        }
        let msg = room_message(self.room_number, self.vibe);
        self.log(msg);
        proof {
            assert(self@.exit_only_at(ex as int, ey as int));
            assert(inner_walls_listed(self@.tiles, walls@));
            assert(treasures_then_potions(self@.pickups, treasure_count as int));
        }
    }

    /// Raises the border walls on a grid of floor tiles, then draws between
    /// 18 and 33 random interior cells and raises a wall on each one that is
    /// not `(1, 1)`.
    fn raise_walls(&mut self) -> (walls: Ghost<Seq<(int, int)>>)
        requires
            old(self)@.shaped(),
            forall|x: int, y: int| inside(x, y) ==> #[trigger] grid_tile(old(self)@.tiles, x, y) == Tile::Floor,
        ensures
            final(self)@ == old(self)@.with_tiles(final(self)@.tiles),
            final(self)@.shaped(),
            final(self)@.walled(),
            forall|x: int, y: int| inside(x, y) ==> #[trigger] grid_tile(final(self)@.tiles, x, y) != Tile::Exit,
            final(self)@.tile(1, 1) == Tile::Floor,
            walls@.len() <= MAX_INNER_WALLS,
            inner_walls_listed(final(self)@.tiles, walls@),
            raised_by_draws(final(self)@.tiles, walls@),
    {
        let ghost start = self@;
        let mut y: i32 = 0;
        while y < GRID_H
            invariant
                0 <= y <= GRID_H,
                self@ == start.with_tiles(self@.tiles),
                self@.shaped(),
                forall|a: int, b: int|
                    inside(a, b) ==> #[trigger] grid_tile(self@.tiles, a, b) == if b < y && !interior(a, b) {
                        Tile::Wall
                    } else {
                        Tile::Floor
                    },
            decreases GRID_H - y,
        {
            let mut x: i32 = 0;
            while x < GRID_W
                invariant
                    0 <= y < GRID_H,
                    0 <= x <= GRID_W,
                    self@ == start.with_tiles(self@.tiles),
                    self@.shaped(),
                    forall|a: int, b: int|
                        inside(a, b) ==> #[trigger] grid_tile(self@.tiles, a, b) == if (b < y || (b == y && a
                            < x)) && !interior(a, b) {
                            Tile::Wall
                        } else {
                            Tile::Floor
                        },
                decreases GRID_W - x,
            {
                let border = x == 0 || y == 0 || x == GRID_W - 1 || y == GRID_H - 1;
                if border {
                    proof {
                        lemma_with_tile(self@, x as int, y as int, Tile::Wall);
                    }
                    self.set_tile(x, y, Tile::Wall);
                }
                x = x + 1;
            }
            y = y + 1;
        }
        let wall_count = roll(18, 34);
        let ghost mut walls: Seq<(int, int)> = Seq::empty();
        let mut k: i32 = 0;
        while k < wall_count
            invariant
                0 <= k <= wall_count <= MAX_INNER_WALLS,
                walls.len() == k,
                MIN_WALL_DRAWS <= wall_count,
                draws_raised(self@.tiles, walls),
                self@ == start.with_tiles(self@.tiles),
                self@.shaped(),
                self@.walled(),
                forall|a: int, b: int| inside(a, b) ==> #[trigger] grid_tile(self@.tiles, a, b) != Tile::Exit,
                self@.tile(1, 1) == Tile::Floor,
                inner_walls_listed(self@.tiles, walls),
            decreases wall_count - k,
        {
            let x = roll(1, GRID_W - 1);
            let y = roll(1, GRID_H - 1);
            let ghost prev = walls;
            if !(x == 1 && y == 1) {
                let ghost before = self@;
                proof {
                    lemma_with_tile(before, x as int, y as int, Tile::Wall);
                }
                self.set_tile(x, y, Tile::Wall);
                proof {
                    walls = walls.push((x as int, y as int));
                    assert forall|a: int, b: int|
                        interior(a, b) && #[trigger] grid_tile(self@.tiles, a, b) == Tile::Wall implies walls.contains(
                            (a, b),
                        ) by {
                        if a == x && b == y {
                            assert(walls[walls.len() - 1] == (a, b));
                        } else {
                            assert(grid_tile(before.tiles, a, b) == Tile::Wall);
                            assert(prev.contains((a, b)));
                            let j = choose|j: int| 0 <= j < prev.len() && prev[j] == (a, b);
                            assert(walls[j] == (a, b));
                        }
                    }
                    assert forall|q: int| 0 <= q < walls.len() implies interior((#[trigger] walls[q]).0, walls[q].1) && (walls[q] != (1int, 1int)
                        ==> grid_tile(self@.tiles, walls[q].0, walls[q].1) == Tile::Wall) by {
                        if q < prev.len() {
                            assert(walls[q] == prev[q]);
                        }
                    }
                }
            } else {
                proof {
                    walls = walls.push((x as int, y as int));
                    assert forall|a: int, b: int|
                        interior(a, b) && #[trigger] grid_tile(self@.tiles, a, b) == Tile::Wall implies walls.contains(
                            (a, b),
                        ) by {
                        let j = choose|j: int| 0 <= j < prev.len() && prev[j] == (a, b);
                        assert(walls[j] == (a, b));
                    }
                    assert forall|q: int| 0 <= q < walls.len() implies interior((#[trigger] walls[q]).0, walls[q].1) && (walls[q] != (1int, 1int)
                        ==> grid_tile(self@.tiles, walls[q].0, walls[q].1) == Tile::Wall) by {
                        if q < prev.len() {
                            assert(walls[q] == prev[q]);
                        }
                    }
                }
            }
            k = k + 1;
        }
        Ghost(walls)
    }
}

} // verus!
