use vstd::prelude::*;

use crate::vibe::Vibe;

verus! {

/// Width of the room grid, in tiles.
pub const GRID_W: i32 = 20;

/// Height of the room grid, in tiles.
pub const GRID_H: i32 = 12;

/// Number of log lines that are kept.
pub const MAX_LOG_LINES: usize = 7;

/// Hit points of a fresh player, which are also the most a player can have.
pub const PLAYER_MAX_HP: i32 = 12;

/// Most monsters a room starts with.
pub const MAX_MONSTERS: usize = 4;

/// Most hit points a monster starts with.
pub const MONSTER_MAX_HP: i32 = 4;

/// Most pickups a room starts with (five treasures and two potions).
pub const MAX_PICKUPS: usize = 7;

#[derive(Clone, Copy, PartialEq, Eq, Structural, Debug)]
pub enum Tile {
    Floor,
    Wall,
    Exit,
}

#[derive(Clone, Copy, PartialEq, Eq, Structural, Debug)]
pub enum PickupKind {
    Treasure,
    Potion,
}

#[derive(Clone, Copy, PartialEq, Eq, Structural, Debug)]
pub struct Player {
    pub x: i32,
    pub y: i32,
    pub hp: i32,
    pub max_hp: i32,
}

#[derive(Clone, Copy, PartialEq, Eq, Structural, Debug)]
pub struct Monster {
    pub x: i32,
    pub y: i32,
    pub hp: i32,
}

#[derive(Clone, Copy, PartialEq, Eq, Structural, Debug)]
pub struct Pickup {
    pub x: i32,
    pub y: i32,
    pub kind: PickupKind,
}

/// The colour family of a floating text.
#[derive(Clone, Copy, PartialEq, Eq, Structural, Debug)]
pub enum FloaterColor {
    Gold,
    Green,
    Red,
    Orange,
    Pink,
}

/// A short text that should rise from a grid cell for a moment.
#[derive(Debug)]
pub struct FloaterSpawn {
    pub text: String,
    pub gx: i32,
    pub gy: i32,
    pub color: FloaterColor,
}

/// A floating text with its text as characters.
pub struct FloaterView {
    pub text: Seq<char>,
    pub gx: i32,
    pub gy: i32,
    pub color: FloaterColor,
}

impl View for FloaterSpawn {
    type V = FloaterView;

    open spec fn view(&self) -> FloaterView {
        FloaterView { text: self.text@, gx: self.gx, gy: self.gy, color: self.color }
    }
}

/// The state of a game: the current room, everyone in it, and the log.
#[derive(Debug)]
pub struct Game {
    /// `tiles[y][x]` is the tile at column `x` and row `y`.
    pub tiles: Vec<Vec<Tile>>,
    pub player: Player,
    pub monsters: Vec<Monster>,
    pub pickups: Vec<Pickup>,
    pub room_number: u32,
    pub vibe: Vibe,
    pub score: i32,
    /// The most recent log lines, oldest first.
    pub messages: Vec<String>,
    /// Floating texts spawned since the room was entered or they were taken.
    pub floaters: Vec<FloaterSpawn>,
    pub game_over: bool,
    /// Set when a room is generated; the one who shows the game clears old
    /// floating texts and flashes the screen, then takes it back.
    pub fresh_room: bool,
}

/// The state of a game as mathematical values.
#[verifier::ext_equal]
pub struct GameView {
    pub tiles: Seq<Seq<Tile>>,
    pub player: Player,
    pub monsters: Seq<Monster>,
    pub pickups: Seq<Pickup>,
    pub room_number: u32,
    pub vibe: Vibe,
    pub score: i32,
    pub messages: Seq<Seq<char>>,
    pub floaters: Seq<FloaterView>,
    pub game_over: bool,
    pub fresh_room: bool,
}

impl View for Game {
    type V = GameView;

    open spec fn view(&self) -> GameView {
        GameView {
            tiles: self.tiles@.map_values(|row: Vec<Tile>| row@),
            player: self.player,
            monsters: self.monsters@,
            pickups: self.pickups@,
            room_number: self.room_number,
            vibe: self.vibe,
            score: self.score,
            messages: self.messages@.map_values(|s: String| s@),
            floaters: self.floaters@.map_values(|f: FloaterSpawn| f@),
            game_over: self.game_over,
            fresh_room: self.fresh_room,
        }
    }
}

/// `(x, y)` lies on the grid.
pub open spec fn inside(x: int, y: int) -> bool {
    0 <= x < GRID_W && 0 <= y < GRID_H
}

/// `(x, y)` lies on the grid and off its border.
pub open spec fn interior(x: int, y: int) -> bool {
    1 <= x < GRID_W - 1 && 1 <= y < GRID_H - 1
}

/// A living monster stands at `(x, y)`.
pub open spec fn monster_at(m: Monster, x: int, y: int) -> bool {
    m.x == x && m.y == y && m.hp > 0
}

/// A pickup lies at `(x, y)`.
pub open spec fn pickup_at(p: Pickup, x: int, y: int) -> bool {
    p.x == x && p.y == y
}

/// Index of the first living monster at `(x, y)` at or after index `k`.
pub open spec fn first_monster_from(ms: Seq<Monster>, x: int, y: int, k: int) -> Option<int>
    decreases ms.len() - k,
{
    if k < 0 || k >= ms.len() {
        None
    } else if monster_at(ms[k], x, y) {
        Some(k)
    } else {
        first_monster_from(ms, x, y, k + 1)
    }
}

/// Index of the first pickup at `(x, y)` at or after index `k`.
pub open spec fn first_pickup_from(ps: Seq<Pickup>, x: int, y: int, k: int) -> Option<int>
    decreases ps.len() - k,
{
    if k < 0 || k >= ps.len() {
        None
    } else if pickup_at(ps[k], x, y) {
        Some(k)
    } else {
        first_pickup_from(ps, x, y, k + 1)
    }
}

/// The log after one more line: the line is appended and, when more than
/// `MAX_LOG_LINES` are held, the oldest one is dropped.
pub open spec fn log_push(ms: Seq<Seq<char>>, m: Seq<char>) -> Seq<Seq<char>> {
    if ms.len() + 1 > MAX_LOG_LINES {
        ms.push(m).drop_first()
    } else {
        ms.push(m)
    }
}

/// The tile at column `x` and row `y` of a grid.
pub open spec fn grid_tile(tiles: Seq<Seq<Tile>>, x: int, y: int) -> Tile {
    tiles[y][x]
}

/// The grid has `GRID_H` rows of `GRID_W` tiles.
pub open spec fn grid_shaped(tiles: Seq<Seq<Tile>>) -> bool {
    &&& tiles.len() == GRID_H
    &&& forall|y: int| 0 <= y < GRID_H ==> #[trigger] tiles[y].len() == GRID_W
}

/// Every border tile of the grid is a wall.
pub open spec fn grid_walled(tiles: Seq<Seq<Tile>>) -> bool {
    forall|x: int, y: int|
        inside(x, y) && !interior(x, y) ==> #[trigger] grid_tile(tiles, x, y) == Tile::Wall
}

/// `(ex, ey)` is the one exit tile of the grid, and it is interior.
pub open spec fn grid_exit_only_at(tiles: Seq<Seq<Tile>>, ex: int, ey: int) -> bool {
    &&& interior(ex, ey)
    &&& grid_tile(tiles, ex, ey) == Tile::Exit
    &&& forall|x: int, y: int|
        inside(x, y) && #[trigger] grid_tile(tiles, x, y) == Tile::Exit ==> x == ex && y == ey
}

/// Something may stand at `(x, y)`: an interior floor tile.
pub open spec fn grid_standable(tiles: Seq<Seq<Tile>>, x: int, y: int) -> bool {
    interior(x, y) && grid_tile(tiles, x, y) == Tile::Floor
}

/// Every living monster stands on an interior floor tile, away from the
/// player and from every pickup, with at most `MONSTER_MAX_HP` hit points.
pub open spec fn monsters_ok(
    tiles: Seq<Seq<Tile>>,
    player: Player,
    monsters: Seq<Monster>,
    pickups: Seq<Pickup>,
) -> bool {
    &&& monsters.len() <= MAX_MONSTERS
    &&& forall|i: int|
        0 <= i < monsters.len() ==> {
            let m = #[trigger] monsters[i];
            &&& grid_standable(tiles, m.x as int, m.y as int)
            &&& 0 < m.hp <= MONSTER_MAX_HP
            &&& !(m.x == player.x && m.y == player.y)
        }
    &&& forall|i: int, j: int|
        0 <= i < monsters.len() && 0 <= j < pickups.len() ==> !pickup_at(
            #[trigger] pickups[j],
            #[trigger] monsters[i].x as int,
            monsters[i].y as int,
        )
}

/// Every pickup lies on its own interior floor tile, away from the player.
pub open spec fn pickups_ok(tiles: Seq<Seq<Tile>>, player: Player, pickups: Seq<Pickup>) -> bool {
    &&& pickups.len() <= MAX_PICKUPS
    &&& forall|i: int|
        0 <= i < pickups.len() ==> {
            let p = #[trigger] pickups[i];
            &&& grid_standable(tiles, p.x as int, p.y as int)
            &&& !(p.x == player.x && p.y == player.y)
        }
    &&& forall|i: int, j: int|
        0 <= i < pickups.len() && 0 <= j < pickups.len() && i != j ==> !pickup_at(
            #[trigger] pickups[i],
            #[trigger] pickups[j].x as int,
            pickups[j].y as int,
        )
}

/// The player stands on an interior floor tile with hit points between zero
/// and the maximum, and the game is over exactly when they are zero.
pub open spec fn player_ok(tiles: Seq<Seq<Tile>>, player: Player, game_over: bool) -> bool {
    &&& grid_standable(tiles, player.x as int, player.y as int)
    &&& player.max_hp == PLAYER_MAX_HP
    &&& 0 <= player.hp <= player.max_hp
    &&& (game_over <==> player.hp == 0)
}

impl GameView {
    pub open spec fn tile(self, x: int, y: int) -> Tile {
        grid_tile(self.tiles, x, y)
    }

    pub open spec fn shaped(self) -> bool {
        grid_shaped(self.tiles)
    }

    pub open spec fn walled(self) -> bool {
        grid_walled(self.tiles)
    }

    pub open spec fn exit_only_at(self, ex: int, ey: int) -> bool {
        grid_exit_only_at(self.tiles, ex, ey)
    }

    /// The grid holds exactly one exit tile.
    pub open spec fn unique_exit(self) -> bool {
        exists|ex: int, ey: int| #[trigger] grid_exit_only_at(self.tiles, ex, ey)
    }

    pub open spec fn player_at(self, x: int, y: int) -> bool {
        self.player.x == x && self.player.y == y
    }

    pub open spec fn any_monster_at(self, x: int, y: int) -> bool {
        exists|i: int| 0 <= i < self.monsters.len() && #[trigger] monster_at(self.monsters[i], x, y)
    }

    pub open spec fn any_pickup_at(self, x: int, y: int) -> bool {
        exists|i: int| 0 <= i < self.pickups.len() && #[trigger] pickup_at(self.pickups[i], x, y)
    }

    /// The cell holds the player, a living monster, a pickup or the exit.
    pub open spec fn occupied(self, x: int, y: int) -> bool {
        self.player_at(x, y) || self.any_monster_at(x, y) || self.any_pickup_at(x, y)
            || self.tile(x, y) == Tile::Exit
    }

    /// An interior floor cell that nothing occupies.
    pub open spec fn free_cell(self, x: int, y: int) -> bool {
        interior(x, y) && self.tile(x, y) == Tile::Floor && !self.occupied(x, y)
    }

    pub open spec fn standable(self, x: int, y: int) -> bool {
        grid_standable(self.tiles, x, y)
    }

    /// The invariant of a game between turns.
    pub open spec fn wf(self) -> bool {
        &&& grid_shaped(self.tiles)
        &&& grid_walled(self.tiles)
        &&& self.unique_exit()
        &&& player_ok(self.tiles, self.player, self.game_over)
        &&& monsters_ok(self.tiles, self.player, self.monsters, self.pickups)
        &&& pickups_ok(self.tiles, self.player, self.pickups)
        &&& self.messages.len() <= MAX_LOG_LINES
        &&& self.room_number >= 1
        &&& self.score >= 0
    }

    /// This state with one more log line.
    pub open spec fn logged(self, m: Seq<char>) -> GameView {
        GameView { messages: log_push(self.messages, m), ..self }
    }

    /// This state with one more floating text.
    pub open spec fn with_floater(self, text: Seq<char>, gx: i32, gy: i32, color: FloaterColor) -> GameView {
        GameView { floaters: self.floaters.push(FloaterView { text, gx, gy, color }), ..self }
    }

    /// This state with another grid.
    pub open spec fn with_tiles(self, tiles: Seq<Seq<Tile>>) -> GameView {
        GameView { tiles, ..self }
    }

    /// This state with tile `(x, y)` replaced.
    pub open spec fn with_tile(self, x: int, y: int, t: Tile) -> GameView {
        GameView { tiles: self.tiles.update(y, self.tiles[y].update(x, t)), ..self }
    }
}

impl Game {
    /// Whether `(x, y)` lies on the grid.
    pub fn is_inside(x: i32, y: i32) -> (b: bool)
        ensures
            b == inside(x as int, y as int),
    {
        x >= 0 && x < GRID_W && y >= 0 && y < GRID_H
    }

    /// The tile at `(x, y)`.
    pub fn tile_at(&self, x: i32, y: i32) -> (t: Tile)
        requires
            self@.shaped(),
            inside(x as int, y as int),
        ensures
            t == self@.tile(x as int, y as int),
    {
        assert(self.tiles@[y as int]@ == self@.tiles[y as int]);
        self.tiles[y as usize][x as usize]
    }

    /// Replaces the tile at `(x, y)`.
    pub fn set_tile(&mut self, x: i32, y: i32, tile: Tile)
        requires
            old(self)@.shaped(),
            inside(x as int, y as int),
        ensures
            final(self)@ == old(self)@.with_tile(x as int, y as int, tile),
    {
        let ghost before = self@;
        assert(self.tiles@[y as int]@ == before.tiles[y as int]);
        self.tiles[y as usize][x as usize] = tile;
        assert(self@.tiles =~= before.with_tile(x as int, y as int, tile).tiles);
        assert(self@ =~= before.with_tile(x as int, y as int, tile));
    }
}


/// Replacing one tile keeps the grid's shape and changes that tile only.
pub proof fn lemma_with_tile(g: GameView, x: int, y: int, t: Tile)
    requires
        g.shaped(),
        inside(x, y),
    ensures
        g.with_tile(x, y, t).shaped(),
        forall|a: int, b: int|
            inside(a, b) ==> #[trigger] grid_tile(g.with_tile(x, y, t).tiles, a, b) == if a == x && b == y {
                t
            } else {
                g.tile(a, b)
            },
{
    let h = g.with_tile(x, y, t);
    assert forall|b: int| 0 <= b < GRID_H implies #[trigger] h.tiles[b].len() == GRID_W by {
        if b != y {
            assert(h.tiles[b] == g.tiles[b]);
        }
    }
}

/// What the first-match search finds: the first living monster at `(x, y)`
/// from index `k` on, or none at all.
pub proof fn lemma_first_monster(ms: Seq<Monster>, x: int, y: int, k: int)
    requires
        0 <= k <= ms.len(),
    ensures
        match first_monster_from(ms, x, y, k) {
            Some(i) => k <= i < ms.len() && monster_at(ms[i], x, y) && forall|j: int|
                k <= j < i ==> !#[trigger] monster_at(ms[j], x, y),
            None => forall|j: int| k <= j < ms.len() ==> !#[trigger] monster_at(ms[j], x, y),
        },
    decreases ms.len() - k,
{
    if k < ms.len() {
        lemma_first_monster(ms, x, y, k + 1);
    }
}

/// What the first-match search finds: the first pickup at `(x, y)` from
/// index `k` on, or none at all.
pub proof fn lemma_first_pickup(ps: Seq<Pickup>, x: int, y: int, k: int)
    requires
        0 <= k <= ps.len(),
    ensures
        match first_pickup_from(ps, x, y, k) {
            Some(i) => k <= i < ps.len() && pickup_at(ps[i], x, y) && forall|j: int|
                k <= j < i ==> !#[trigger] pickup_at(ps[j], x, y),
            None => forall|j: int| k <= j < ps.len() ==> !#[trigger] pickup_at(ps[j], x, y),
        },
    decreases ps.len() - k,
{
    if k < ps.len() {
        lemma_first_pickup(ps, x, y, k + 1);
    }
}

impl Game {
    /// Whether `(x, y)` cannot be entered: off the grid or a wall.
    pub fn is_blocked(&self, x: i32, y: i32) -> (b: bool)
        requires
            self@.shaped(),
        ensures
            b == (!inside(x as int, y as int) || self@.tile(x as int, y as int) == Tile::Wall),
    {
        if !Self::is_inside(x, y) {
            return true;
        }
        if self.tile_at(x, y) == Tile::Wall {
            return true;
        }
        false
    }

    /// Index of the first living monster at `(x, y)`.
    pub fn monster_index_at(&self, x: i32, y: i32) -> (r: Option<usize>)
        ensures
            r matches Some(i) ==> first_monster_from(self@.monsters, x as int, y as int, 0) == Some(
                i as int,
            ),
            r is None ==> first_monster_from(self@.monsters, x as int, y as int, 0) is None,
    {
        let n = self.monsters.len();
        let mut i: usize = 0;
        while i < n
            invariant
                n == self.monsters@.len(),
                0 <= i <= n,
                first_monster_from(self@.monsters, x as int, y as int, 0) == first_monster_from(
                    self@.monsters,
                    x as int,
                    y as int,
                    i as int,
                ),
            decreases n - i,
        {
            let m = self.monsters[i];
            if m.x == x && m.y == y && m.hp > 0 {
                return Some(i);
            }
            i = i + 1;
        }
        None
    }

    /// Index of the first pickup at `(x, y)`.
    pub fn pickup_index_at(&self, x: i32, y: i32) -> (r: Option<usize>)
        ensures
            r matches Some(i) ==> first_pickup_from(self@.pickups, x as int, y as int, 0) == Some(
                i as int,
            ),
            r is None ==> first_pickup_from(self@.pickups, x as int, y as int, 0) is None,
    {
        let n = self.pickups.len();
        let mut i: usize = 0;
        while i < n
            invariant
                n == self.pickups@.len(),
                0 <= i <= n,
                first_pickup_from(self@.pickups, x as int, y as int, 0) == first_pickup_from(
                    self@.pickups,
                    x as int,
                    y as int,
                    i as int,
                ),
            decreases n - i,
        {
            let p = self.pickups[i];
            if p.x == x && p.y == y {
                return Some(i);
            }
            i = i + 1;
        }
        None
    }

    /// Whether the player, a living monster, a pickup or the exit is at `(x, y)`.
    pub fn occupied_by_spawned_entity(&self, x: i32, y: i32) -> (b: bool)
        requires
            self@.shaped(),
            inside(x as int, y as int),
        ensures
            b == self@.occupied(x as int, y as int),
    {
        if self.player.x == x && self.player.y == y {
            return true;
        }
        let mi = self.monster_index_at(x, y);
        let pi = self.pickup_index_at(x, y);
        proof {
            lemma_first_monster(self@.monsters, x as int, y as int, 0);
            lemma_first_pickup(self@.pickups, x as int, y as int, 0);
            if let Some(i) = mi {
                assert(monster_at(self@.monsters[i as int], x as int, y as int));
            }
            if let Some(i) = pi {
                assert(pickup_at(self@.pickups[i as int], x as int, y as int));
            }
        }
        mi.is_some() || pi.is_some() || self.tile_at(x, y) == Tile::Exit
    }

    /// Appends a line to the log, dropping the oldest line when more than
    /// `MAX_LOG_LINES` are held.
    pub fn log(&mut self, msg: String)
        ensures
            final(self)@ == old(self)@.logged(msg@),
    {
        let ghost before = self@;
        let ghost m = msg@;
        self.messages.push(msg);
        if self.messages.len() > MAX_LOG_LINES {
            self.messages.remove(0);
        }
        assert(self@.messages =~= log_push(before.messages, m));
        assert(self@ =~= before.logged(m));
    }

    /// Spawns a floating text at grid cell `(gx, gy)`.
    pub fn spawn_floater(&mut self, text: String, gx: i32, gy: i32, color: FloaterColor)
        ensures
            final(self)@ == old(self)@.with_floater(text@, gx, gy, color),
    {
        let ghost before = self@;
        let ghost t = text@;
        self.floaters.push(FloaterSpawn { text, gx, gy, color });
        assert(self@.floaters =~= before.with_floater(t, gx, gy, color).floaters);
        assert(self@ =~= before.with_floater(t, gx, gy, color));
    }
}

} // verus!
