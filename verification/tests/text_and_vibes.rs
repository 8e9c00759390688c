use dungeon_dj::messages::{
    body_check_message, bonk_message, damage_floater, death_message, exit_message, gold_floater,
    heal_floater, ko_floater, monster_deleted_message, potion_message, room_message,
    slap_message, treasure_message,
};
use dungeon_dj::text::{decimal_string, push_decimal};
use dungeon_dj::vibe::{Rgba, Vibe};

fn rgba(r: u8, g: u8, b: u8) -> Rgba {
    Rgba { r, g, b, a: 255 }
}

#[test]
fn decimal_of_small_and_large_numbers() {
    assert_eq!(decimal_string(0), "0");
    assert_eq!(decimal_string(7), "7");
    assert_eq!(decimal_string(10), "10");
    assert_eq!(decimal_string(42), "42");
    assert_eq!(decimal_string(1905), "1905");
    assert_eq!(decimal_string(u32::MAX), "4294967295");
}

#[test]
fn push_decimal_appends() {
    let mut s = String::from("HP ");
    push_decimal(&mut s, 12);
    assert_eq!(s, "HP 12");
}

#[test]
fn log_line_texts() {
    assert_eq!(room_message(1, Vibe::Synthwave), "Room 1 dropped: Synthwave Catacombs");
    assert_eq!(room_message(23, Vibe::GoblinFunk), "Room 23 dropped: Goblin Funk Basement");
    assert_eq!(bonk_message(), "You bonk into the architecture.");
    assert_eq!(treasure_message(), "You pocket cursed treasure. +10 score.");
    assert_eq!(potion_message(3), "You chug a suspicious potion. +3 HP.");
    assert_eq!(exit_message(), "You found the exit. Crowd goes wild. +25 score.");
    assert_eq!(monster_deleted_message(), "Monster deleted from the dance floor. +15 score.");
    assert_eq!(slap_message(4, 0), "You slap the monster for 4. It slaps back for 0.");
    assert_eq!(slap_message(1, 3), "You slap the monster for 1. It slaps back for 3.");
    assert_eq!(body_check_message(2), "A monster body-checks you for 2.");
}

#[test]
fn death_messages_by_roll() {
    assert_eq!(death_message(0), "You were booed to death by a skeleton trio.");
    assert_eq!(death_message(1), "The goblin funk consumed you.");
    assert_eq!(death_message(2), "A cursed beat drop ended your career.");
    assert_eq!(death_message(3), "You got folded by dungeon nightlife.");
    assert_eq!(death_message(4), "Your set ended in catastrophic vibes.");
    assert_eq!(death_message(17), "Your set ended in catastrophic vibes.");
}

#[test]
fn floater_texts() {
    assert_eq!(gold_floater(), "+10 GOLD");
    assert_eq!(heal_floater(4), "+4 HP");
    assert_eq!(damage_floater(3), "-3");
    assert_eq!(ko_floater(), "KO!");
}

#[test]
fn vibe_from_roll() {
    assert_eq!(Vibe::from_roll(0), Vibe::Synthwave);
    assert_eq!(Vibe::from_roll(1), Vibe::DungeonJazz);
    assert_eq!(Vibe::from_roll(2), Vibe::CursedTechno);
    assert_eq!(Vibe::from_roll(3), Vibe::IceAmbient);
    assert_eq!(Vibe::from_roll(4), Vibe::GoblinFunk);
    assert_eq!(Vibe::from_roll(99), Vibe::GoblinFunk);
}

#[test]
fn vibe_random_is_some_vibe() {
    for _ in 0..50 {
        let v = Vibe::random();
        assert!(matches!(
            v,
            Vibe::Synthwave | Vibe::DungeonJazz | Vibe::CursedTechno | Vibe::IceAmbient | Vibe::GoblinFunk
        ));
    }
}

#[test]
fn vibe_names() {
    assert_eq!(Vibe::Synthwave.name(), "Synthwave Catacombs");
    assert_eq!(Vibe::DungeonJazz.name(), "Dungeon Jazz Lounge");
    assert_eq!(Vibe::CursedTechno.name(), "Cursed Techno Pit");
    assert_eq!(Vibe::IceAmbient.name(), "Ice Ambient Vault");
    assert_eq!(Vibe::GoblinFunk.name(), "Goblin Funk Basement");
}

#[test]
fn vibe_palettes() {
    assert_eq!(Vibe::Synthwave.bg(), rgba(24, 10, 46));
    assert_eq!(Vibe::DungeonJazz.bg(), rgba(40, 28, 15));
    assert_eq!(Vibe::CursedTechno.bg(), rgba(14, 20, 18));
    assert_eq!(Vibe::IceAmbient.bg(), rgba(10, 30, 44));
    assert_eq!(Vibe::GoblinFunk.bg(), rgba(18, 42, 20));
    assert_eq!(Vibe::Synthwave.accent(), rgba(255, 70, 180));
    assert_eq!(Vibe::IceAmbient.accent(), rgba(120, 220, 255));
    assert_eq!(Vibe::DungeonJazz.floor(), rgba(82, 58, 33));
    assert_eq!(Vibe::GoblinFunk.floor(), rgba(40, 80, 35));
    assert_eq!(Vibe::CursedTechno.wall(), rgba(40, 120, 95));
    assert_eq!(Vibe::Synthwave.wall(), rgba(140, 70, 200));
}
