use vstd::prelude::*;

use crate::dice::roll;
use crate::game::{FloaterColor, Game, GameView, Monster, Player};
use crate::messages::{
    damage_floater, damage_floater_text, death_message, death_text, ko_floater, ko_floater_text,
    monster_deleted_message, monster_deleted_text, slap_message, slap_text,
};

verus! {

/// The game after the player's hit points are checked: at zero or below
/// they are set to zero, the game is over, and the death message that
/// `death_roll` selects is logged; otherwise nothing changes.
pub open spec fn died_check(g: GameView, death_roll: int) -> GameView {
    if g.player.hp <= 0 {
        GameView { player: Player { hp: 0, ..g.player }, game_over: true, ..g }.logged(
            death_text(death_roll),
        )
    } else {
        g
    }
}

/// One exchange of blows with the `idx`-th monster: it loses `player_hit`
/// hit points, shown on its cell. If that kills it the score rises by 15,
/// the kill is logged and shown; otherwise the player loses `monster_hit`,
/// the exchange is logged, and a nonzero hit is shown on the player.
pub open spec fn blows(g: GameView, idx: int, player_hit: int, monster_hit: int) -> GameView {
    let m = g.monsters[idx];
    let hit = Monster { hp: (m.hp - player_hit) as i32, ..m };
    let g1 = GameView { monsters: g.monsters.update(idx, hit), ..g }.with_floater(
        damage_floater_text(player_hit as nat),
        m.x,
        m.y,
        FloaterColor::Red,
    );
    if hit.hp <= 0 {
        GameView { score: (g.score + 15) as i32, ..g1 }.logged(monster_deleted_text()).with_floater(
            ko_floater_text(),
            m.x,
            m.y,
            FloaterColor::Orange,
        )
    } else {
        let g2 = GameView {
            player: Player { hp: (g.player.hp - monster_hit) as i32, ..g.player },
            ..g1
        }.logged(slap_text(player_hit as nat, monster_hit as nat));
        if monster_hit > 0 {
            g2.with_floater(
                damage_floater_text(monster_hit as nat),
                g.player.x,
                g.player.y,
                FloaterColor::Pink,
            )
        } else {
            g2
        }
    }
}

/// A fight with the `idx`-th monster: the blows, then the check for death.
pub open spec fn fight_outcome(
    g: GameView,
    idx: int,
    player_hit: int,
    monster_hit: int,
    death_roll: int,
) -> GameView {
    died_check(blows(g, idx, player_hit, monster_hit), death_roll)
}

/// The monsters with hit points left, in order.
pub open spec fn living(ms: Seq<Monster>) -> Seq<Monster>
    decreases ms.len(),
{
    if ms.len() == 0 {
        Seq::empty()
    } else if ms.last().hp > 0 {
        living(ms.drop_last()).push(ms.last())
    } else {
        living(ms.drop_last())
    }
}

/// The game without its dead monsters.
pub open spec fn without_dead(g: GameView) -> GameView {
    GameView { monsters: living(g.monsters), ..g }
}

/// The living monsters are some of the monsters, all with hit points left.
pub proof fn lemma_living(ms: Seq<Monster>)
    ensures
        living(ms).len() <= ms.len(),
        forall|k: int|
            0 <= k < living(ms).len() ==> (#[trigger] living(ms)[k]).hp > 0 && ms.contains(
                living(ms)[k],
            ),
    decreases ms.len(),
{
    if ms.len() > 0 {
        let rest = ms.drop_last();
        lemma_living(rest);
        assert forall|k: int| 0 <= k < living(ms).len() implies (#[trigger] living(
            ms,
        )[k]).hp > 0 && ms.contains(living(ms)[k]) by {
            if k < living(rest).len() {
                assert(living(ms)[k] == living(rest)[k]);
                let j = choose|j: int| 0 <= j < rest.len() && rest[j] == living(rest)[k];
                assert(ms[j] == rest[j]);
            } else {
                assert(ms[ms.len() - 1] == ms.last());
            }
        }
    }
}

impl Game {
    /// A death message picked by a roll in `[0, 5)`.
    pub fn random_death_message(&self) -> (s: String)
        ensures
            exists|r: int| 0 <= r < 5 && s@ == #[trigger] death_text(r),
    {
        let r = roll(0, 5);
        death_message(r)
    }

    /// When the player has no hit points left, sets them to zero, ends the
    /// game and logs a random death message.
    pub(crate) fn end_if_dead(&mut self)
        ensures
            exists|r: int| 0 <= r < 5 && final(self)@ == #[trigger] died_check(old(self)@, r),
    {
        if self.player.hp <= 0 {
            self.player.hp = 0;
            self.game_over = true;
            let msg = self.random_death_message();
            let ghost r = choose|r: int| 0 <= r < 5 && msg@ == #[trigger] death_text(r);
            self.log(msg);
            assert(self@ == died_check(old(self)@, r));
        } else {
            assert(self@ == died_check(old(self)@, 0));
        }
    }

    /// The player fights the `monster_index`-th monster: the player hits for
    /// one to four, and a surviving monster hits back for zero to three.
    pub fn fight(&mut self, monster_index: usize)
        requires
            monster_index < old(self)@.monsters.len(),
            old(self)@.monsters[monster_index as int].hp >= i32::MIN + 4,
            old(self)@.player.hp >= i32::MIN + 3,
            old(self)@.score <= i32::MAX - 15,
        ensures
            exists|player_hit: int, monster_hit: int, death_roll: int|
                1 <= player_hit <= 4 && 0 <= monster_hit <= 3 && 0 <= death_roll < 5
                    && final(self)@ == #[trigger] fight_outcome(
                    old(self)@,
                    monster_index as int,
                    player_hit,
                    monster_hit,
                    death_roll,
                ),
    {
        let ghost g0 = self@;
        let player_hit = roll(1, 5);
        let monster_hit = roll(0, 4);
        let m = self.monsters[monster_index];
        let mx = m.x;
        let my = m.y;
        self.monsters.set(monster_index, Monster { hp: m.hp - player_hit, ..m });
        let text = damage_floater(player_hit as u32);
        self.spawn_floater(text, mx, my, FloaterColor::Red);
        if self.monsters[monster_index].hp <= 0 {
            self.score = self.score + 15;
            let msg = monster_deleted_message();
            self.log(msg);
            let text = ko_floater();
            self.spawn_floater(text, mx, my, FloaterColor::Orange);
        } else {
            self.player.hp = self.player.hp - monster_hit;
            let msg = slap_message(player_hit as u32, monster_hit as u32);
            self.log(msg);
            if monster_hit > 0 {
                let text = damage_floater(monster_hit as u32);
                self.spawn_floater(text, self.player.x, self.player.y, FloaterColor::Pink);
            }
        }
        assert(self@ =~= blows(g0, monster_index as int, player_hit as int, monster_hit as int));
        let ghost b = self@;
        self.end_if_dead();
        proof {
            let r = choose|r: int| 0 <= r < 5 && self@ == #[trigger] died_check(b, r);
            assert(self@ == fight_outcome(
                g0,
                monster_index as int,
                player_hit as int,
                monster_hit as int,
                r,
            ));
        }
    }

    /// Drops the monsters that have no hit points left.
    pub fn remove_dead_monsters(&mut self)
        ensures
            final(self)@ == without_dead(old(self)@),
    {
        let ghost g0 = self@;
        let mut kept: Vec<Monster> = Vec::new();
        let n = self.monsters.len();
        let mut i: usize = 0;
        while i < n
            invariant
                n == self.monsters@.len(),
                self@ == g0,
                0 <= i <= n,
                kept@ == living(g0.monsters.take(i as int)),
            decreases n - i,
        {
            let m = self.monsters[i];
            proof {
                assert(g0.monsters.take(i + 1).drop_last() =~= g0.monsters.take(i as int));
            }
            if m.hp > 0 {
                kept.push(m);
            }
            i = i + 1;
        }
        assert(g0.monsters.take(n as int) =~= g0.monsters);
        self.monsters = kept;
        assert(self@ =~= without_dead(g0));
    }
}

} // verus!
