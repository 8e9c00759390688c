use dungeon_dj::game::{
    FloaterColor, Game, Monster, Pickup, PickupKind, Player, Tile, GRID_H, GRID_W, MAX_LOG_LINES,
    PLAYER_MAX_HP,
};
use dungeon_dj::monsters::{signum, Step};
use dungeon_dj::room::floor_grid;
use dungeon_dj::vibe::Vibe;

/// A walled room with the exit at (10, 5) and the player at (1, 1).
fn plain_game() -> Game {
    let mut tiles = floor_grid();
    for y in 0..GRID_H as usize {
        for x in 0..GRID_W as usize {
            if x == 0 || y == 0 || x == GRID_W as usize - 1 || y == GRID_H as usize - 1 {
                tiles[y][x] = Tile::Wall;
            }
        }
    }
    tiles[5][10] = Tile::Exit;
    Game {
        tiles,
        player: Player { x: 1, y: 1, hp: PLAYER_MAX_HP, max_hp: PLAYER_MAX_HP },
        monsters: Vec::new(),
        pickups: Vec::new(),
        room_number: 1,
        vibe: Vibe::Synthwave,
        score: 0,
        messages: Vec::new(),
        floaters: Vec::new(),
        game_over: false,
        fresh_room: false,
    }
}

fn exits(g: &Game) -> Vec<(i32, i32)> {
    let mut v = Vec::new();
    for y in 0..GRID_H {
        for x in 0..GRID_W {
            if g.tile_at(x, y) == Tile::Exit {
                v.push((x, y));
            }
        }
    }
    v
}

/// Checks the invariant that every turn keeps.
fn assert_well_formed(g: &Game) {
    assert_eq!(g.tiles.len(), GRID_H as usize);
    for row in &g.tiles {
        assert_eq!(row.len(), GRID_W as usize);
    }
    for y in 0..GRID_H {
        for x in 0..GRID_W {
            if x == 0 || y == 0 || x == GRID_W - 1 || y == GRID_H - 1 {
                assert_eq!(g.tile_at(x, y), Tile::Wall);
            }
        }
    }
    assert_eq!(exits(g).len(), 1);
    assert_eq!(g.tile_at(g.player.x, g.player.y), Tile::Floor);
    assert_eq!(g.player.max_hp, PLAYER_MAX_HP);
    assert!(0 <= g.player.hp && g.player.hp <= g.player.max_hp);
    assert_eq!(g.game_over, g.player.hp == 0);
    assert!(g.monsters.len() <= 4);
    for m in &g.monsters {
        assert_eq!(g.tile_at(m.x, m.y), Tile::Floor);
        assert!(m.hp > 0 && m.hp <= 4);
        assert!(!(m.x == g.player.x && m.y == g.player.y));
        for p in &g.pickups {
            assert!(!(m.x == p.x && m.y == p.y));
        }
    }
    assert!(g.pickups.len() <= 7);
    for (i, p) in g.pickups.iter().enumerate() {
        assert_eq!(g.tile_at(p.x, p.y), Tile::Floor);
        assert!(!(p.x == g.player.x && p.y == g.player.y));
        for (j, q) in g.pickups.iter().enumerate() {
            if i != j {
                assert!(!(p.x == q.x && p.y == q.y));
            }
        }
    }
    assert!(g.messages.len() <= MAX_LOG_LINES);
    assert!(g.room_number >= 1);
    assert!(g.score >= 0);
}

/// Checks what every freshly generated room looks like.
fn assert_fresh_room(g: &Game, first_room: bool) {
    assert_well_formed(g);
    assert_ne!(g.tile_at(1, 1), Tile::Wall);
    let mut inner_walls = 0;
    for y in 1..GRID_H - 1 {
        for x in 1..GRID_W - 1 {
            if g.tile_at(x, y) == Tile::Wall {
                inner_walls += 1;
            }
        }
    }
    assert!(inner_walls <= 33);
    if first_room {
        assert_eq!((g.player.x, g.player.y), (1, 1));
    }
    let treasures = g.pickups.iter().take_while(|p| p.kind == PickupKind::Treasure).count();
    assert!((2..=5).contains(&treasures));
    let potions = g.pickups.len() - treasures;
    assert!((1..=2).contains(&potions));
    assert!(g.pickups[treasures..].iter().all(|p| p.kind == PickupKind::Potion));
    assert!((1..=4).contains(&g.monsters.len()));
    for (i, m) in g.monsters.iter().enumerate() {
        assert!((2..=4).contains(&m.hp));
        for (j, n) in g.monsters.iter().enumerate() {
            if i != j {
                assert!(!(m.x == n.x && m.y == n.y));
            }
        }
    }
    let (ex, ey) = exits(g)[0];
    assert!(!(ex == g.player.x && ey == g.player.y));
    assert!(g.floaters.is_empty());
    assert!(g.fresh_room);
    assert_eq!(
        g.messages.last().unwrap(),
        &format!("Room {} dropped: {}", g.room_number, g.vibe.name())
    );
}

#[test]
fn inside_and_blocked() {
    let g = plain_game();
    assert!(Game::is_inside(0, 0));
    assert!(Game::is_inside(GRID_W - 1, GRID_H - 1));
    assert!(!Game::is_inside(-1, 3));
    assert!(!Game::is_inside(3, GRID_H));
    assert!(g.is_blocked(-1, 3));
    assert!(g.is_blocked(0, 3));
    assert!(!g.is_blocked(3, 3));
    assert!(!g.is_blocked(10, 5));
}

#[test]
fn set_and_read_tiles() {
    let mut g = plain_game();
    assert_eq!(g.tile_at(4, 4), Tile::Floor);
    g.set_tile(4, 4, Tile::Wall);
    assert_eq!(g.tile_at(4, 4), Tile::Wall);
    assert_eq!(g.tile_at(5, 4), Tile::Floor);
    assert_eq!(g.tile_at(10, 5), Tile::Exit);
}

#[test]
fn first_living_monster_and_pickup_found() {
    let mut g = plain_game();
    g.monsters.push(Monster { x: 3, y: 3, hp: 0 });
    g.monsters.push(Monster { x: 3, y: 3, hp: 2 });
    g.monsters.push(Monster { x: 3, y: 3, hp: 4 });
    g.pickups.push(Pickup { x: 6, y: 2, kind: PickupKind::Potion });
    g.pickups.push(Pickup { x: 7, y: 2, kind: PickupKind::Treasure });
    assert_eq!(g.monster_index_at(3, 3), Some(1));
    assert_eq!(g.monster_index_at(4, 3), None);
    assert_eq!(g.pickup_index_at(7, 2), Some(1));
    assert_eq!(g.pickup_index_at(8, 2), None);
}

#[test]
fn occupancy() {
    let mut g = plain_game();
    g.monsters.push(Monster { x: 3, y: 3, hp: 2 });
    g.monsters.push(Monster { x: 4, y: 4, hp: 0 });
    g.pickups.push(Pickup { x: 6, y: 2, kind: PickupKind::Potion });
    assert!(g.occupied_by_spawned_entity(1, 1));
    assert!(g.occupied_by_spawned_entity(3, 3));
    assert!(!g.occupied_by_spawned_entity(4, 4));
    assert!(g.occupied_by_spawned_entity(6, 2));
    assert!(g.occupied_by_spawned_entity(10, 5));
    assert!(!g.occupied_by_spawned_entity(8, 8));
}

#[test]
fn log_keeps_latest_lines() {
    let mut g = plain_game();
    for i in 0..10 {
        g.log(format!("line {}", i));
        assert!(g.messages.len() <= MAX_LOG_LINES);
        assert_eq!(g.messages.last().unwrap(), &format!("line {}", i));
    }
    assert_eq!(g.messages.len(), MAX_LOG_LINES);
    assert_eq!(g.messages[0], "line 3");
    assert_eq!(g.messages[6], "line 9");
}

#[test]
fn floaters_are_queued_and_taken() {
    let mut g = plain_game();
    g.spawn_floater(String::from("KO!"), 3, 4, FloaterColor::Orange);
    assert_eq!(g.floaters.len(), 1);
    assert_eq!(g.floaters[0].text, "KO!");
    assert_eq!((g.floaters[0].gx, g.floaters[0].gy), (3, 4));
    assert_eq!(g.floaters[0].color, FloaterColor::Orange);
    g.fresh_room = true;
    let (fresh, spawned) = g.take_effects();
    assert!(fresh);
    assert_eq!(spawned.len(), 1);
    assert!(g.floaters.is_empty());
    assert!(!g.fresh_room);
}

#[test]
fn signum_values() {
    assert_eq!(signum(5), 1);
    assert_eq!(signum(-3), -1);
    assert_eq!(signum(0), 0);
}

#[test]
fn snapshot_skips_dead_monsters() {
    let mut g = plain_game();
    g.monsters.push(Monster { x: 3, y: 3, hp: 2 });
    g.monsters.push(Monster { x: 4, y: 4, hp: 0 });
    g.monsters.push(Monster { x: 5, y: 5, hp: 1 });
    assert_eq!(g.living_monster_positions(), vec![(3, 3), (5, 5)]);
    g.remove_dead_monsters();
    assert_eq!(g.monsters.len(), 2);
    assert_eq!((g.monsters[1].x, g.monsters[1].y), (5, 5));
}

#[test]
fn adjacent_monster_attacks() {
    let mut g = plain_game();
    g.player.x = 5;
    g.player.y = 5;
    g.monsters.push(Monster { x: 6, y: 5, hp: 2 });
    let snap = g.living_monster_positions();
    assert_eq!(g.plan_step(&snap, 0, false), Step::Attack);
    // Swapped, the first option is the null step along the row it shares.
    assert_eq!(g.plan_step(&snap, 0, true), Step::MoveTo(6, 5));
}

#[test]
fn diagonal_monster_attacks_only_when_blocked() {
    let mut g = plain_game();
    g.player.x = 5;
    g.player.y = 5;
    g.monsters.push(Monster { x: 6, y: 6, hp: 2 });
    let snap = g.living_monster_positions();
    assert_eq!(g.plan_step(&snap, 0, false), Step::MoveTo(5, 6));
    assert_eq!(g.plan_step(&snap, 0, true), Step::MoveTo(6, 5));
    g.set_tile(5, 6, Tile::Wall);
    g.set_tile(6, 5, Tile::Wall);
    assert_eq!(g.plan_step(&snap, 0, false), Step::Attack);
}

#[test]
fn monster_walks_toward_player() {
    let mut g = plain_game();
    g.player.x = 3;
    g.player.y = 3;
    g.monsters.push(Monster { x: 7, y: 6, hp: 2 });
    let snap = g.living_monster_positions();
    assert_eq!(g.plan_step(&snap, 0, false), Step::MoveTo(6, 6));
    assert_eq!(g.plan_step(&snap, 0, true), Step::MoveTo(7, 5));
}

#[test]
fn monster_in_players_column_holds_unless_swapped() {
    let mut g = plain_game();
    g.player.x = 4;
    g.player.y = 2;
    g.monsters.push(Monster { x: 4, y: 6, hp: 2 });
    let snap = g.living_monster_positions();
    assert_eq!(g.plan_step(&snap, 0, false), Step::MoveTo(4, 6));
    assert_eq!(g.plan_step(&snap, 0, true), Step::MoveTo(4, 5));
}

#[test]
fn monster_avoids_walls_pickups_and_other_monsters() {
    let mut g = plain_game();
    g.player.x = 2;
    g.player.y = 2;
    g.monsters.push(Monster { x: 6, y: 6, hp: 2 });
    g.set_tile(5, 6, Tile::Wall);
    g.pickups.push(Pickup { x: 6, y: 5, kind: PickupKind::Treasure });
    g.monsters.push(Monster { x: 5, y: 5, hp: 3 });
    let snap = g.living_monster_positions();
    assert_eq!(g.plan_step(&snap, 0, false), Step::MoveTo(6, 6));
    g.monsters[1] = Monster { x: 9, y: 9, hp: 3 };
    let snap = g.living_monster_positions();
    assert_eq!(g.plan_step(&snap, 0, false), Step::MoveTo(5, 5));
}

#[test]
fn monster_never_steps_on_exit() {
    let mut g = plain_game();
    g.player.x = 8;
    g.player.y = 5;
    g.monsters.push(Monster { x: 11, y: 5, hp: 2 });
    g.set_tile(11, 5, Tile::Floor);
    g.set_tile(10, 5, Tile::Exit);
    let snap = g.living_monster_positions();
    assert_eq!(g.plan_step(&snap, 0, false), Step::MoveTo(11, 5));
}

#[test]
fn monsters_hit_an_adjacent_player() {
    let mut g = plain_game();
    g.player.x = 5;
    g.player.y = 5;
    g.monsters.push(Monster { x: 6, y: 6, hp: 2 });
    g.set_tile(5, 6, Tile::Wall);
    g.set_tile(6, 5, Tile::Wall);
    g.move_monsters();
    let lost = PLAYER_MAX_HP - g.player.hp;
    assert!((1..=3).contains(&lost));
    assert_eq!(g.messages.last().unwrap(), &format!("A monster body-checks you for {}.", lost));
    assert_eq!(g.floaters.len(), 1);
    assert_eq!(g.floaters[0].text, format!("-{}", lost));
    assert_eq!(g.floaters[0].color, FloaterColor::Red);
    assert_eq!((g.monsters[0].x, g.monsters[0].y), (6, 6));
}

#[test]
fn weak_monster_dies_in_a_fight() {
    let mut g = plain_game();
    g.player.x = 5;
    g.player.y = 5;
    g.monsters.push(Monster { x: 6, y: 5, hp: 1 });
    g.fight(0);
    assert!(g.monsters[0].hp <= 0);
    assert_eq!(g.score, 15);
    assert_eq!(g.player.hp, PLAYER_MAX_HP);
    assert_eq!(g.messages.last().unwrap(), "Monster deleted from the dance floor. +15 score.");
    assert_eq!(g.floaters.len(), 2);
    assert_eq!(g.floaters[1].text, "KO!");
    assert_eq!(g.floaters[1].color, FloaterColor::Orange);
    g.remove_dead_monsters();
    assert!(g.monsters.is_empty());
}

#[test]
fn tough_monster_hits_back() {
    let mut g = plain_game();
    g.player.x = 5;
    g.player.y = 5;
    g.monsters.push(Monster { x: 6, y: 5, hp: 50 });
    g.fight(0);
    let dealt = 50 - g.monsters[0].hp;
    let taken = PLAYER_MAX_HP - g.player.hp;
    assert!((1..=4).contains(&dealt));
    assert!((0..=3).contains(&taken));
    assert_eq!(g.score, 0);
    assert_eq!(
        g.messages.last().unwrap(),
        &format!("You slap the monster for {}. It slaps back for {}.", dealt, taken)
    );
    assert_eq!(g.floaters[0].text, format!("-{}", dealt));
    assert_eq!(g.floaters.len(), if taken > 0 { 2 } else { 1 });
}

#[test]
fn fight_can_end_the_game() {
    for _ in 0..200 {
        let mut g = plain_game();
        g.player.x = 5;
        g.player.y = 5;
        g.player.hp = 1;
        g.monsters.push(Monster { x: 6, y: 5, hp: 50 });
        g.fight(0);
        if g.player.hp != 1 {
            assert_eq!(g.player.hp, 0);
            assert!(g.game_over);
            let last = g.messages.last().unwrap();
            assert!((0..5).any(|r| dungeon_dj::messages::death_message(r) == *last));
            return;
        }
    }
    panic!("a monster never hit back in 200 fights");
}

#[test]
fn bonking_into_a_wall_only_logs() {
    let mut g = plain_game();
    g.try_move_player(-1, 0);
    assert_eq!((g.player.x, g.player.y), (1, 1));
    assert_eq!(g.messages, vec![String::from("You bonk into the architecture.")]);
    assert_eq!(g.player.hp, PLAYER_MAX_HP);
}

#[test]
fn game_over_ignores_moves() {
    let mut g = plain_game();
    g.player.hp = 0;
    g.game_over = true;
    let before = format!("{:?}", g);
    g.try_move_player(1, 0);
    assert_eq!(format!("{:?}", g), before);
}

#[test]
fn picking_up_treasure() {
    let mut g = plain_game();
    g.pickups.push(Pickup { x: 2, y: 1, kind: PickupKind::Treasure });
    g.try_move_player(1, 0);
    assert_eq!((g.player.x, g.player.y), (2, 1));
    assert_eq!(g.score, 10);
    assert!(g.pickups.is_empty());
    assert_eq!(g.messages.last().unwrap(), "You pocket cursed treasure. +10 score.");
    assert_eq!(g.floaters[0].text, "+10 GOLD");
    assert_eq!(g.floaters[0].color, FloaterColor::Gold);
    assert_well_formed(&g);
}

#[test]
fn drinking_a_potion_heals_up_to_the_maximum() {
    let mut g = plain_game();
    g.player.hp = 5;
    g.pickups.push(Pickup { x: 1, y: 2, kind: PickupKind::Potion });
    g.try_move_player(0, 1);
    let healed = g.player.hp - 5;
    assert!((2..=4).contains(&healed));
    assert_eq!(g.messages.last().unwrap(), &format!("You chug a suspicious potion. +{} HP.", healed));
    assert_eq!(g.floaters[0].text, format!("+{} HP", healed));

    let mut g = plain_game();
    g.player.hp = 11;
    g.pickups.push(Pickup { x: 1, y: 2, kind: PickupKind::Potion });
    g.try_move_player(0, 1);
    assert_eq!(g.player.hp, PLAYER_MAX_HP);
}

#[test]
fn reaching_the_exit_starts_a_new_room() {
    let mut g = plain_game();
    g.player.x = 9;
    g.player.y = 5;
    g.try_move_player(1, 0);
    assert_eq!(g.room_number, 2);
    assert_eq!(g.score, 25);
    assert!(g
        .messages
        .iter()
        .any(|m| m == "You found the exit. Crowd goes wild. +25 score."));
    assert_fresh_room(&g, false);
    assert_ne!((g.player.x, g.player.y), (10, 5));
}

#[test]
fn walking_into_a_monster_fights_it() {
    let mut g = plain_game();
    g.monsters.push(Monster { x: 2, y: 1, hp: 1 });
    g.try_move_player(1, 0);
    assert_eq!((g.player.x, g.player.y), (1, 1));
    assert!(g.monsters.is_empty());
    assert_eq!(g.score, 15);
    assert_well_formed(&g);
}

#[test]
fn generated_rooms_follow_the_rules() {
    for first in [true, false] {
        for _ in 0..40 {
            let mut g = plain_game();
            g.generate_room(first);
            assert_fresh_room(&g, first);
            if !first {
                assert_ne!((g.player.x, g.player.y), (1, 1));
            }
        }
    }
}

#[test]
fn empty_position_is_free() {
    let g = Game::new();
    for _ in 0..50 {
        let (x, y) = g.random_empty_position();
        assert!((1..GRID_W - 1).contains(&x) && (1..GRID_H - 1).contains(&y));
        assert_eq!(g.tile_at(x, y), Tile::Floor);
        assert!(!g.occupied_by_spawned_entity(x, y));
    }
    let cells = g.empty_cells();
    assert!(!cells.is_empty());
    for &(x, y) in &cells {
        assert_eq!(g.tile_at(x, y), Tile::Floor);
        assert!(!g.occupied_by_spawned_entity(x, y));
    }
}

#[test]
fn a_single_empty_cell_is_found() {
    let mut g = plain_game();
    for y in 1..GRID_H - 1 {
        for x in 1..GRID_W - 1 {
            if !(x == 1 && y == 1) && !(x == 10 && y == 5) && !(x == 17 && y == 9) {
                g.set_tile(x, y, Tile::Wall);
            }
        }
    }
    assert_eq!(g.empty_cells(), vec![(17, 9)]);
    assert_eq!(g.random_empty_position(), (17, 9));
}

#[test]
fn new_game_starts_in_room_one() {
    let g = Game::new();
    assert_fresh_room(&g, true);
    assert_eq!(g.room_number, 1);
    assert_eq!(g.score, 0);
    assert_eq!(g.player.hp, PLAYER_MAX_HP);
    assert!(!g.game_over);
    assert_eq!(g.messages.len(), 1);
}

#[test]
fn restart_only_after_game_over() {
    let mut g = plain_game();
    g.score = 40;
    g.handle_restart(true);
    assert_eq!(g.score, 40);
    g.player.hp = 0;
    g.game_over = true;
    g.handle_restart(false);
    assert!(g.game_over);
    g.handle_restart(true);
    assert!(!g.game_over);
    assert_eq!(g.score, 0);
    assert_fresh_room(&g, true);
    let mut g = plain_game();
    g.game_over = true;
    g.player.hp = 0;
    g.reset();
    assert_eq!(g.room_number, 1);
}

#[test]
fn random_play_keeps_the_rules() {
    let moves = [(0, -1), (0, 1), (-1, 0), (1, 0)];
    for game in 0..10 {
        let mut g = Game::new();
        let mut score = g.score;
        let mut room = g.room_number;
        for step in 0..300 {
            let (dx, dy) = moves[(step * 7 + game * 3 + step / 5) % 4];
            let target_exit = Game::is_inside(g.player.x + dx, g.player.y + dy)
                && g.tile_at(g.player.x + dx, g.player.y + dy) == Tile::Exit
                && !g.game_over;
            let was_over = g.game_over;
            let before = format!("{:?}", g);
            let (px, py) = (g.player.x, g.player.y);
            let tiles = g.tiles.clone();
            let hp = g.player.hp;
            let monster_count = g.monsters.len() as i32;
            let fights = g.monster_index_at(px + dx, py + dy).is_some();
            let heals = g
                .pickup_index_at(px + dx, py + dy)
                .map(|i| g.pickups[i].kind == PickupKind::Potion)
                .unwrap_or(false);
            g.try_move_player(dx, dy);
            assert_well_formed(&g);
            assert!(g.score >= score);
            assert!([0, 10, 15, 25].contains(&(g.score - score)));
            assert_eq!(g.room_number == room + 1, g.score == score + 25);
            if target_exit {
                assert_eq!(g.room_number, room + 1);
                assert_fresh_room(&g, false);
            } else {
                assert_eq!(g.room_number, room);
            }
            if was_over {
                assert_eq!(format!("{:?}", g), before);
            }
            if !target_exit {
                assert_eq!(g.tiles, tiles);
                let (qx, qy) = (g.player.x, g.player.y);
                assert!((qx, qy) == (px, py) || (qx, qy) == (px + dx, py + dy));
                if !was_over && !heals {
                    let fight_loss = if fights { 3 } else { 0 };
                    assert!(g.player.hp >= (hp - 3 * monster_count - fight_loss).max(0));
                    assert!(g.player.hp <= hp);
                }
            }
            score = g.score;
            room = g.room_number;
        }
    }
}

#[test]
fn dice_give_varied_results() {
    let mut vibes = Vec::new();
    for _ in 0..200 {
        let v = Vibe::random();
        if !vibes.contains(&v) {
            vibes.push(v);
        }
    }
    assert!(vibes.len() >= 2);
    let g = Game::new();
    let first = g.random_empty_position();
    assert!((0..200).any(|_| g.random_empty_position() != first));
}

#[test]
fn counters_bound_depends_on_the_step() {
    let mut g = plain_game();
    g.score = i32::MAX - 1;
    g.pickups.push(Pickup { x: 2, y: 1, kind: PickupKind::Treasure });
    assert!(g.move_fits_counters(-1, 0));
    assert!(g.move_fits_counters(0, 1));
    assert!(!g.move_fits_counters(1, 0));
    g.try_move_player(-1, 0);
    assert_eq!(g.score, i32::MAX - 1);
    g.try_move_player(0, 1);
    assert_eq!((g.player.x, g.player.y), (1, 2));
    assert_eq!(g.score, i32::MAX - 1);

    let mut g = plain_game();
    g.score = i32::MAX - 20;
    g.player.x = 9;
    g.player.y = 5;
    assert!(!g.move_fits_counters(1, 0));
    g.monsters.push(Monster { x: 8, y: 5, hp: 2 });
    assert!(g.move_fits_counters(-1, 0));
    g.score = i32::MAX - 10;
    assert!(!g.move_fits_counters(-1, 0));
    g.score = i32::MAX - 15;
    assert!(g.move_fits_counters(-1, 0));
    g.score = i32::MAX - 25;
    g.room_number = u32::MAX;
    assert!(!g.move_fits_counters(1, 0));
    g.room_number = 4;
    assert!(g.move_fits_counters(1, 0));
}
