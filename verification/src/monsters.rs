use vstd::prelude::*;

use crate::dice::roll;
use crate::game::{
    grid_shaped, grid_tile, inside, pickup_at, FloaterColor, Game, GameView, Monster, Pickup,
    Player, Tile,
};
use crate::messages::{body_check_message, body_check_text, damage_floater, damage_floater_text};

verus! {

/// What a monster does on its turn.
#[derive(Clone, Copy, PartialEq, Eq, Structural, Debug)]
pub enum Step {
    /// It hits the player.
    Attack,
    /// It walks to the cell.
    MoveTo(i32, i32),
    /// Every option was blocked.
    Stay,
}

/// `-1`, `0` or `1` after the sign of `v`.
pub open spec fn sign(v: int) -> int {
    if v > 0 {
        1
    } else if v < 0 {
        -1
    } else {
        0
    }
}

/// The sign of `v`.
pub fn signum(v: i32) -> (s: i32)
    ensures
        s == sign(v as int),
{
    if v > 0 {
        1
    } else if v < 0 {
        -1
    } else {
        0
    }
}

/// Positions of the living monsters, in order.
pub open spec fn living_positions(ms: Seq<Monster>) -> Seq<(i32, i32)>
    decreases ms.len(),
{
    if ms.len() == 0 {
        Seq::empty()
    } else {
        let rest = living_positions(ms.drop_last());
        if ms.last().hp > 0 {
            rest.push((ms.last().x, ms.last().y))
        } else {
            rest
        }
    }
}

/// Another monster than the `i`-th was at `(x, y)` when the turn began.
pub open spec fn other_was_at(snap: Seq<(i32, i32)>, i: int, x: int, y: int) -> bool {
    exists|j: int| 0 <= j < snap.len() && j != i && #[trigger] snap[j] == (x as i32, y as i32)
}

/// What trying to go by `(ox, oy)` gives monster `m`, the `i`-th: an attack
/// when that is the player's cell; nothing (`None`) when the cell is off the
/// grid, a wall, the exit, a cell where another monster stood when the turn
/// began, or a pickup's cell; otherwise a move there.
pub open spec fn option_verdict(
    tiles: Seq<Seq<Tile>>,
    player: Player,
    pickups: Seq<Pickup>,
    snap: Seq<(i32, i32)>,
    i: int,
    m: Monster,
    ox: int,
    oy: int,
) -> Option<Step> {
    let nx = m.x + ox;
    let ny = m.y + oy;
    if nx == player.x && ny == player.y {
        Some(Step::Attack)
    } else if !inside(nx, ny) || grid_tile(tiles, nx, ny) == Tile::Wall || grid_tile(tiles, nx, ny)
        == Tile::Exit {
        None
    } else if other_was_at(snap, i, nx, ny) || (exists|k: int|
        0 <= k < pickups.len() && #[trigger] pickup_at(pickups[k], nx, ny)) {
        None
    } else {
        Some(Step::MoveTo(nx as i32, ny as i32))
    }
}

/// The step of monster `m`, the `i`-th: with `dx` and `dy` the signs of the
/// player's offset, it tries `(dx, 0)`, `(0, dy)`, `(dx, dy)` and `(0, 0)` in
/// that order, the first two swapped when `swap` holds, and takes the first
/// that gives a step; if none does, it stays.
pub open spec fn planned_step(
    tiles: Seq<Seq<Tile>>,
    player: Player,
    pickups: Seq<Pickup>,
    snap: Seq<(i32, i32)>,
    i: int,
    m: Monster,
    swap: bool,
) -> Step {
    let dx = sign(player.x - m.x);
    let dy = sign(player.y - m.y);
    let a = if swap { (0, dy) } else { (dx, 0) };
    let b = if swap { (dx, 0) } else { (0, dy) };
    let va = option_verdict(tiles, player, pickups, snap, i, m, a.0, a.1);
    let vb = option_verdict(tiles, player, pickups, snap, i, m, b.0, b.1);
    let vc = option_verdict(tiles, player, pickups, snap, i, m, dx, dy);
    let vd = option_verdict(tiles, player, pickups, snap, i, m, 0, 0);
    if va is Some {
        va.unwrap()
    } else if vb is Some {
        vb.unwrap()
    } else if vc is Some {
        vc.unwrap()
    } else if vd is Some {
        vd.unwrap()
    } else {
        Step::Stay
    }
}

/// The game after the turns of the first `k` monsters, and the damage they
/// queued for the player. Monster `i`, if living, takes the step that
/// `swaps[i]` plans: an attack deals `damages[i]`, spawns its floating text
/// on the player and logs it; a move changes its cell.
pub open spec fn turn_upto(
    g: GameView,
    snap: Seq<(i32, i32)>,
    swaps: Seq<bool>,
    damages: Seq<int>,
    k: int,
) -> (GameView, int)
    decreases k,
{
    if k <= 0 {
        (g, 0)
    } else {
        let (h, q) = turn_upto(g, snap, swaps, damages, k - 1);
        let i = k - 1;
        let m = g.monsters[i];
        if m.hp <= 0 {
            (h, q)
        } else {
            match planned_step(g.tiles, g.player, g.pickups, snap, i, m, swaps[i]) {
                Step::Attack => (
                    h.with_floater(
                        damage_floater_text(damages[i] as nat),
                        g.player.x,
                        g.player.y,
                        FloaterColor::Red,
                    ).logged(body_check_text(damages[i] as nat)),
                    q + damages[i],
                ),
                Step::MoveTo(x, y) => (
                    GameView { monsters: h.monsters.update(i, Monster { x, y, hp: m.hp }), ..h },
                    q,
                ),
                Step::Stay => (h, q),
            }
        }
    }
}

/// The game after every monster's turn: the queued damage, if any, is taken
/// off the player's hit points at the end.
pub open spec fn monsters_turn(g: GameView, swaps: Seq<bool>, damages: Seq<int>) -> GameView {
    let (h, q) = turn_upto(g, living_positions(g.monsters), swaps, damages, g.monsters.len() as int);
    if q > 0 {
        GameView { player: Player { hp: (h.player.hp - q) as i32, ..h.player }, ..h }
    } else {
        h
    }
}

/// The rolls of a monsters' turn are in range: a damage of one to three
/// for each monster.
pub open spec fn turn_rolls_ok(g: GameView, swaps: Seq<bool>, damages: Seq<int>) -> bool {
    &&& swaps.len() == g.monsters.len()
    &&& damages.len() == g.monsters.len()
    &&& forall|i: int| 0 <= i < damages.len() ==> 1 <= #[trigger] damages[i] <= 3
}

/// Partway through the turns, the grid, the player, the pickups and the
/// monsters yet to move are as they were, and the damage is bounded.
pub proof fn lemma_turn_upto(
    g: GameView,
    snap: Seq<(i32, i32)>,
    swaps: Seq<bool>,
    damages: Seq<int>,
    k: int,
)
    requires
        0 <= k <= g.monsters.len(),
        swaps.len() >= k,
        damages.len() >= k,
        forall|i: int| 0 <= i < k ==> 1 <= #[trigger] damages[i] <= 3,
    ensures
        turn_upto(g, snap, swaps, damages, k).0.tiles == g.tiles,
        turn_upto(g, snap, swaps, damages, k).0.player == g.player,
        turn_upto(g, snap, swaps, damages, k).0.pickups == g.pickups,
        turn_upto(g, snap, swaps, damages, k).0.score == g.score,
        turn_upto(g, snap, swaps, damages, k).0.room_number == g.room_number,
        turn_upto(g, snap, swaps, damages, k).0.game_over == g.game_over,
        turn_upto(g, snap, swaps, damages, k).0.vibe == g.vibe,
        turn_upto(g, snap, swaps, damages, k).0.fresh_room == g.fresh_room,
        turn_upto(g, snap, swaps, damages, k).0.monsters.len() == g.monsters.len(),
        forall|j: int|
            k <= j < g.monsters.len() ==> #[trigger] turn_upto(
                g,
                snap,
                swaps,
                damages,
                k,
            ).0.monsters[j] == g.monsters[j],
        0 <= turn_upto(g, snap, swaps, damages, k).1 <= 3 * k,
    decreases k,
{
    if k > 0 {
        lemma_turn_upto(g, snap, swaps, damages, k - 1);
    }
}

/// The turns of the first `k` monsters read only the first `k` rolls.
pub proof fn lemma_turn_upto_prefix(
    g: GameView,
    snap: Seq<(i32, i32)>,
    s1: Seq<bool>,
    d1: Seq<int>,
    s2: Seq<bool>,
    d2: Seq<int>,
    k: int,
)
    requires
        s1.len() >= k,
        s2.len() >= k,
        d1.len() >= k,
        d2.len() >= k,
        forall|j: int| 0 <= j < k ==> s1[j] == s2[j] && d1[j] == d2[j],
    ensures
        turn_upto(g, snap, s1, d1, k) == turn_upto(g, snap, s2, d2, k),
    decreases k,
{
    if k > 0 {
        lemma_turn_upto_prefix(g, snap, s1, d1, s2, d2, k - 1);
    }
}

/// Every coordinate of the player and the monsters lies within a billion of
/// the origin, so a step of one cell and the difference of two coordinates
/// stay far inside `i32`. Every game on the grid meets it: see
/// `lemma_wf_coords_fit`.
pub open spec fn coords_fit(g: GameView) -> bool {
    &&& -1_000_000_000 <= g.player.x <= 1_000_000_000
    &&& -1_000_000_000 <= g.player.y <= 1_000_000_000
    &&& forall|i: int|
        0 <= i < g.monsters.len() ==> -1_000_000_000 <= #[trigger] g.monsters[i].x <= 1_000_000_000
            && -1_000_000_000 <= g.monsters[i].y <= 1_000_000_000
}

/// A well-formed game has all its coordinates on the grid, so they fit.
pub proof fn lemma_wf_coords_fit(g: GameView)
    requires
        g.wf(),
    ensures
        coords_fit(g),
{
    assert forall|i: int| 0 <= i < g.monsters.len() implies -1_000_000_000 <= #[trigger] g.monsters[i].x
        <= 1_000_000_000 && -1_000_000_000 <= g.monsters[i].y <= 1_000_000_000 by {
        assert(crate::game::grid_standable(g.tiles, g.monsters[i].x as int, g.monsters[i].y as int));
    }
}

impl Game {
    /// Every living monster takes a step toward the player, in order: each
    /// flips a coin for the order of its first two options, and an attack
    /// rolls one to three damage, which is queued, shown and logged. Moves
    /// avoid the cells where other monsters stood when the turn began. The
    /// queued damage is taken off the player at the end.
    pub fn move_monsters(&mut self)
        requires
            grid_shaped(old(self)@.tiles),
            coords_fit(old(self)@),
            old(self)@.player.hp - 3 * old(self)@.monsters.len() >= i32::MIN,
            3 * old(self)@.monsters.len() <= i32::MAX,
        ensures
            exists|swaps: Seq<bool>, damages: Seq<int>|
                turn_rolls_ok(old(self)@, swaps, damages) && final(self)@ == #[trigger] monsters_turn(
                    old(self)@,
                    swaps,
                    damages,
                ),
    {
        let ghost g0 = self@;
        let mut queued: i32 = 0;
        let snap = self.living_monster_positions();
        let n = self.monsters.len();
        let ghost mut swaps: Seq<bool> = Seq::empty();
        let ghost mut damages: Seq<int> = Seq::empty();
        let mut i: usize = 0;
        while i < n
            invariant
                n == g0.monsters.len(),
                0 <= i <= n,
                snap@ == living_positions(g0.monsters),
                grid_shaped(g0.tiles),
                coords_fit(g0),
                g0.player.hp - 3 * n >= i32::MIN,
                3 * n <= i32::MAX,
                swaps.len() == i,
                damages.len() == i,
                forall|j: int| 0 <= j < i ==> 1 <= #[trigger] damages[j] <= 3,
                (self@, queued as int) == turn_upto(g0, snap@, swaps, damages, i as int),
            decreases n - i,
        {
            proof {
                lemma_turn_upto(g0, snap@, swaps, damages, i as int);
            }
            let m = self.monsters[i];
            if m.hp <= 0 {
                proof {
                    let s2 = swaps.push(false);
                    let d2 = damages.push(1);
                    lemma_turn_upto_prefix(g0, snap@, swaps, damages, s2, d2, i as int);
                    swaps = s2;
                    damages = d2;
                }
                i = i + 1;
                continue;
            }
            let coin = roll(0, 2);
            let ghost before = self@;
            let step = self.plan_step(&snap, i, coin == 0);
            let ghost s2 = swaps.push(coin == 0);
            match step {
                Step::Attack => {
                    let dmg = roll(1, 4);
                    queued = queued + dmg;
                    let text = damage_floater(dmg as u32);
                    self.spawn_floater(text, self.player.x, self.player.y, FloaterColor::Red);
                    let msg = body_check_message(dmg as u32);
                    self.log(msg);
                    proof {
                        let d2 = damages.push(dmg as int);
                        lemma_turn_upto_prefix(g0, snap@, swaps, damages, s2, d2, i as int);
                        swaps = s2;
                        damages = d2;
                    }
                },
                Step::MoveTo(nx, ny) => {
                    self.monsters.set(i, Monster { x: nx, y: ny, hp: m.hp });
                    proof {
                        let d2 = damages.push(1);
                        lemma_turn_upto_prefix(g0, snap@, swaps, damages, s2, d2, i as int);
                        swaps = s2;
                        damages = d2;
                        assert(self@ =~= (GameView {
                            monsters: before.monsters.update(i as int, Monster { x: nx, y: ny, hp: m.hp }),
                            ..before
                        }));
                    }
                },
                Step::Stay => {
                    proof {
                        let d2 = damages.push(1);
                        lemma_turn_upto_prefix(g0, snap@, swaps, damages, s2, d2, i as int);
                        swaps = s2;
                        damages = d2;
                    }
                },
            }
            i = i + 1;
        }
        proof {
            lemma_turn_upto(g0, snap@, swaps, damages, n as int);
        }
        if queued > 0 {
            self.player.hp = self.player.hp - queued;
        }
        assert(turn_rolls_ok(g0, swaps, damages));
        assert(self@ =~= monsters_turn(g0, swaps, damages));
    }

    /// Positions of the living monsters, in order.
    pub fn living_monster_positions(&self) -> (snap: Vec<(i32, i32)>)
        ensures
            snap@ == living_positions(self@.monsters),
    {
        let mut snap: Vec<(i32, i32)> = Vec::new();
        let n = self.monsters.len();
        let mut i: usize = 0;
        while i < n
            invariant
                n == self.monsters@.len(),
                0 <= i <= n,
                snap@ == living_positions(self@.monsters.take(i as int)),
            decreases n - i,
        {
            let m = self.monsters[i];
            proof {
                assert(self@.monsters.take(i + 1).drop_last() =~= self@.monsters.take(i as int));
            }
            if m.hp > 0 {
                snap.push((m.x, m.y));
            }
            i = i + 1;
        }
        assert(self@.monsters.take(n as int) =~= self@.monsters);
        snap
    }

    /// What trying to go by `(ox, oy)` gives the `i`-th monster.
    fn option_check(&self, snap: &Vec<(i32, i32)>, i: usize, ox: i32, oy: i32) -> (v: Option<Step>)
        requires
            grid_shaped(self@.tiles),
            i < self@.monsters.len(),
            -1_000_000_000 <= self@.monsters[i as int].x <= 1_000_000_000,
            -1_000_000_000 <= self@.monsters[i as int].y <= 1_000_000_000,
            -1 <= ox <= 1,
            -1 <= oy <= 1,
        ensures
            v == option_verdict(
                self@.tiles,
                self@.player,
                self@.pickups,
                snap@,
                i as int,
                self@.monsters[i as int],
                ox as int,
                oy as int,
            ),
    {
        let m = self.monsters[i];
        let nx = m.x + ox;
        let ny = m.y + oy;
        if nx == self.player.x && ny == self.player.y {
            return Some(Step::Attack);
        }
        if !Self::is_inside(nx, ny) || self.tile_at(nx, ny) == Tile::Wall || self.tile_at(nx, ny)
            == Tile::Exit {
            return None;
        }
        let mut occupied_by_monster = false;
        let mut j: usize = 0;
        while j < snap.len()
            invariant
                0 <= j <= snap@.len(),
                occupied_by_monster <==> exists|k: int|
                    0 <= k < j && k != i && #[trigger] snap@[k] == (nx, ny),
            decreases snap@.len() - j,
        {
            let (sx, sy) = snap[j];
            if j != i && sx == nx && sy == ny {
                occupied_by_monster = true;
            }
            j = j + 1;
        }
        let mut occupied_by_pickup = false;
        let mut k: usize = 0;
        while k < self.pickups.len()
            invariant
                0 <= k <= self@.pickups.len(),
                occupied_by_pickup <==> exists|q: int|
                    0 <= q < k && #[trigger] pickup_at(self@.pickups[q], nx as int, ny as int),
            decreases self@.pickups.len() - k,
        {
            let p = self.pickups[k];
            if p.x == nx && p.y == ny {
                occupied_by_pickup = true;
                assert(pickup_at(self@.pickups[k as int], nx as int, ny as int));
            }
            k = k + 1;
        }
        if occupied_by_monster || occupied_by_pickup || (nx == self.player.x && ny
            == self.player.y) {
            return None;
        }
        Some(Step::MoveTo(nx, ny))
    }

    /// The step that the `i`-th monster takes, `swap` telling whether its
    /// first two options are tried in swapped order.
    pub fn plan_step(&self, snap: &Vec<(i32, i32)>, i: usize, swap: bool) -> (s: Step)
        requires
            grid_shaped(self@.tiles),
            i < self@.monsters.len(),
            -1_000_000_000 <= self@.monsters[i as int].x <= 1_000_000_000,
            -1_000_000_000 <= self@.monsters[i as int].y <= 1_000_000_000,
            -1_000_000_000 <= self@.player.x <= 1_000_000_000,
            -1_000_000_000 <= self@.player.y <= 1_000_000_000,
        ensures
            s == planned_step(
                self@.tiles,
                self@.player,
                self@.pickups,
                snap@,
                i as int,
                self@.monsters[i as int],
                swap,
            ),
    {
        let m = self.monsters[i];
        let dx = signum(self.player.x - m.x);
        let dy = signum(self.player.y - m.y);
        let (ax, ay) = if swap { (0, dy) } else { (dx, 0) };
        let (bx, by) = if swap { (dx, 0) } else { (0, dy) };
        if let Some(s) = self.option_check(snap, i, ax, ay) {
            return s;
        }
        if let Some(s) = self.option_check(snap, i, bx, by) {
            return s;
        }
        if let Some(s) = self.option_check(snap, i, dx, dy) {
            return s;
        }
        if let Some(s) = self.option_check(snap, i, 0, 0) {
            return s;
        }
        Step::Stay
    }
}

} // verus!
